use navigator_bootstrap::cluster::{
    container_name, container_request, default_cluster_image_ref, deployed_image_ref,
    ensure_cluster_image, network_request, volume_name, DeployOptions, KUBECONFIG_PATH,
};
use navigator_bootstrap::paths::Environment;

fn environment(cluster_image: Option<&str>, image_tag: Option<&str>) -> Environment {
    Environment {
        home: None,
        xdg_config_home: None,
        kubeconfig: None,
        cluster_image: cluster_image.map(str::to_string),
        image_tag: image_tag.map(str::to_string),
    }
}

#[test]
fn options_begin_with_the_default_image() {
    let options = DeployOptions::new("dev");
    assert_eq!(options.name, "dev");
    assert_eq!(options.image_ref, None);
    assert_eq!(DeployOptions::new("x".to_string()).clone().name, "x");
}

#[test]
fn resources_have_the_name_of_the_cluster() {
    assert_eq!(container_name("dev"), "navigator-cluster-dev");
    assert_eq!(volume_name("dev"), "navigator-cluster-dev");
    assert_ne!(container_name("dev"), container_name("test"));
    assert_eq!(KUBECONFIG_PATH, "/etc/rancher/k3s/k3s.yaml");
}

#[test]
fn image_has_the_version_as_its_tag() {
    assert_eq!(ensure_cluster_image("v1.29.8-k3s1"), "navigator-cluster:v1.29.8-k3s1");
}

#[test]
fn environment_chooses_the_image() {
    let image = |cluster_image, image_tag| {
        default_cluster_image_ref(&environment(cluster_image, image_tag))
    };
    assert_eq!(image(None, None), "navigator-cluster:dev");
    assert_eq!(image(None, Some("1.2")), "navigator-cluster:1.2");
    assert_eq!(image(None, Some(" \t")), "navigator-cluster:dev");
    assert_eq!(image(Some("  "), Some("1.2")), "navigator-cluster:1.2");
    assert_eq!(image(Some(" x:y "), Some("1.2")), " x:y ");
}

#[test]
fn options_come_before_the_environment() {
    let env = environment(Some("from-env"), None);
    let mut options = DeployOptions::new("dev");
    assert_eq!(deployed_image_ref(&options, &env), "from-env");
    options.image_ref = Some("mine".to_string());
    assert_eq!(deployed_image_ref(&options, &env), "mine");
    options.image_ref = Some(String::new());
    assert_eq!(deployed_image_ref(&options, &env), "");
}

#[test]
fn network_is_an_attachable_bridge() {
    let network = network_request();
    assert_eq!(network.name, "navigator-cluster");
    assert_eq!(network.driver, "bridge");
    assert!(network.check_duplicate);
    assert!(network.attachable);
}

#[test]
fn container_is_a_k3s_server() {
    let container = container_request("dev", "image:tag");
    assert_eq!(container.name, "navigator-cluster-dev");
    assert_eq!(container.image, "image:tag");
    assert_eq!(
        container.command,
        vec![
            "server",
            "--disable=traefik",
            "--tls-san=127.0.0.1",
            "--tls-san=localhost",
            "--tls-san=host.docker.internal",
        ]
    );
    assert!(container.privileged);
    assert_eq!(container.binds, vec!["navigator-cluster-dev:/var/lib/rancher/k3s"]);
    assert_eq!(container.network_mode, "navigator-cluster");
    assert_eq!(container.extra_hosts, vec!["host.docker.internal:host-gateway"]);
    let ports: Vec<(&str, &str, &str)> = container
        .port_bindings
        .iter()
        .map(|port| {
            (
                port.container_port.as_str(),
                port.host_ip.as_str(),
                port.host_port.as_str(),
            )
        })
        .collect();
    assert_eq!(
        ports,
        vec![
            ("6443/tcp", "0.0.0.0", "6443"),
            ("80/tcp", "0.0.0.0", "80"),
            ("30051/tcp", "0.0.0.0", "8080"),
            ("443/tcp", "0.0.0.0", "443"),
        ]
    );
    assert_eq!(
        container.exposed_ports,
        vec!["6443/tcp", "80/tcp", "30051/tcp", "443/tcp"]
    );
}
