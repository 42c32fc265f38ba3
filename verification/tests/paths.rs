use navigator_bootstrap::paths::{
    cli_mtls_backup_dir, cli_mtls_dir, cli_mtls_temp_dir, default_local_kubeconfig_path,
    stored_kubeconfig_path, xdg_config_dir, Environment, HostPath,
};
use std::path::{Path, PathBuf};

fn shown(path: HostPath) -> PathBuf {
    path.parts
        .iter()
        .fold(PathBuf::from(&path.base), |joined, part| joined.join(part))
}

fn environment(home: Option<&str>, xdg: Option<&str>, kubeconfig: Option<&str>) -> Environment {
    Environment {
        home: home.map(str::to_string),
        xdg_config_home: xdg.map(str::to_string),
        kubeconfig: kubeconfig.map(str::to_string),
        cluster_image: None,
        image_tag: None,
    }
}

#[test]
fn paths_are_put_together_from_parts() {
    let path = HostPath::new("/a".to_string()).join("b").join("/c");
    assert_eq!(path.base, "/a");
    assert_eq!(path.parts, vec!["b", "/c"]);
    let copy = path.clone();
    assert_eq!(copy.base, path.base);
    assert_eq!(copy.parts, path.parts);
    let env = environment(Some("/home/me"), None, None);
    let stored = stored_kubeconfig_path(&env, "dev").unwrap();
    assert_eq!(stored.base, "/home/me");
    assert_eq!(
        stored.parts,
        vec![".config", "navigator", "clusters", "dev", "kubeconfig"]
    );
}

#[test]
fn settings_stand_in_the_xdg_directory() {
    let env = environment(Some("/home/me"), Some("/xdg"), None);
    assert_eq!(shown(xdg_config_dir(&env).unwrap()), Path::new("/xdg"));
    assert_eq!(
        shown(stored_kubeconfig_path(&env, "dev").unwrap()),
        Path::new("/xdg/navigator/clusters/dev/kubeconfig")
    );
    let empty = environment(Some("/home/me"), Some(""), None);
    assert_eq!(
        shown(stored_kubeconfig_path(&empty, "dev").unwrap()),
        Path::new("navigator/clusters/dev/kubeconfig")
    );
}

#[test]
fn settings_stand_in_the_home_directory_otherwise() {
    let env = environment(Some("/home/me"), None, None);
    assert_eq!(
        shown(stored_kubeconfig_path(&env, "dev").unwrap()),
        Path::new("/home/me/.config/navigator/clusters/dev/kubeconfig")
    );
    assert_eq!(
        shown(cli_mtls_dir(&env, "dev").unwrap()),
        Path::new("/home/me/.config/navigator/clusters/dev/mtls")
    );
    assert_eq!(
        shown(cli_mtls_temp_dir(&env, "dev").unwrap()),
        Path::new("/home/me/.config/navigator/clusters/dev/mtls.tmp")
    );
    assert_eq!(
        shown(cli_mtls_backup_dir(&env, "dev").unwrap()),
        Path::new("/home/me/.config/navigator/clusters/dev/mtls.bak")
    );
}

#[test]
fn certificate_directories_are_extensions() {
    for base in ["/xdg", "/xdg/", "", "rel"] {
        for name in ["dev", "a.b", "", ".", "x/", "/abs"] {
            let env = environment(None, Some(base), None);
            let dir = shown(cli_mtls_dir(&env, name).unwrap());
            assert_eq!(
                dir,
                Path::new(base)
                    .join("navigator")
                    .join("clusters")
                    .join(name)
                    .join("mtls")
            );
            assert_eq!(
                shown(cli_mtls_temp_dir(&env, name).unwrap()),
                dir.with_extension("tmp")
            );
            assert_eq!(
                shown(cli_mtls_backup_dir(&env, name).unwrap()),
                dir.with_extension("bak")
            );
        }
    }
}

#[test]
fn without_home_there_is_no_place() {
    let env = environment(None, None, None);
    assert_eq!(
        stored_kubeconfig_path(&env, "dev").unwrap_err().message(),
        "HOME is not set"
    );
    assert!(cli_mtls_dir(&env, "dev").is_err());
    assert!(cli_mtls_temp_dir(&env, "dev").is_err());
    assert!(cli_mtls_backup_dir(&env, "dev").is_err());
    assert!(default_local_kubeconfig_path(&env).is_err());
}

#[test]
fn local_kubeconfig_is_the_first_of_the_list() {
    let path = |kubeconfig| {
        let env = environment(Some("/home/me"), None, kubeconfig);
        shown(default_local_kubeconfig_path(&env).unwrap())
    };
    assert_eq!(path(Some("/a:/b")), Path::new("/a"));
    assert_eq!(path(Some("/a")), Path::new("/a"));
    assert_eq!(path(Some(":/b")), Path::new("/home/me/.kube/config"));
    assert_eq!(path(Some("")), Path::new("/home/me/.kube/config"));
    assert_eq!(path(None), Path::new("/home/me/.kube/config"));
    let env = environment(None, None, Some("/a:/b"));
    assert_eq!(shown(default_local_kubeconfig_path(&env).unwrap()), Path::new("/a"));
}

#[test]
fn clusters_have_paths_of_their_own() {
    let env = environment(None, Some("/xdg"), None);
    let names = ["a", "b", "a-b", "a.b", "navigator"];
    for one in names {
        for other in names {
            assert_eq!(
                one == other,
                shown(stored_kubeconfig_path(&env, one).unwrap())
                    == shown(stored_kubeconfig_path(&env, other).unwrap())
            );
        }
    }
}
