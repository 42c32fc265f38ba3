use navigator_bootstrap::kubeconfig::{
    is_valid_kubeconfig, kubeconfig_to_store, rewrite_kubeconfig,
};

#[test]
fn rewrite_updates_server_address() {
    let input = "apiVersion: v1\nclusters:\n- cluster:\n    server: https://10.0.0.1:6443\n";
    let output = rewrite_kubeconfig(input, "test-cluster");
    assert!(output.contains("server: https://127.0.0.1:6443"));
}

#[test]
fn rewrite_preserves_trailing_newline() {
    let input = "apiVersion: v1\nserver: https://10.0.0.1\n";
    let output = rewrite_kubeconfig(input, "test-cluster");
    assert!(output.ends_with('\n'));
}

#[test]
fn rewrite_renames_default_entries() {
    let input = "apiVersion: v1
clusters:
- name: default
  cluster:
    server: https://10.0.0.1:6443
contexts:
- name: default
  context:
    cluster: default
    user: default
users:
- name: default
current-context: default
";
    let output = rewrite_kubeconfig(input, "my-cluster");
    assert!(
        output.contains("name: my-cluster"),
        "should contain 'name: my-cluster'"
    );
    assert!(
        output.contains("cluster: my-cluster"),
        "should contain 'cluster: my-cluster'"
    );
    assert!(
        output.contains("user: my-cluster"),
        "should contain 'user: my-cluster'"
    );
    assert!(
        output.contains("current-context: my-cluster"),
        "should contain 'current-context: my-cluster'"
    );
    assert!(
        !output.contains("name: default"),
        "should not contain 'name: default'"
    );
}

#[test]
fn rewriting_gives_exact_text() {
    let input = "clusters:\r\n- name: default\n    server: x\n  cluster: default\n user: default\n   current-context: default\nname: default2";
    let output = rewrite_kubeconfig(input, "c1");
    assert_eq!(
        output,
        "clusters:\n- name: c1\n    server: https://127.0.0.1:6443\n  cluster: c1\n user: c1\ncurrent-context: c1\nname: default2"
    );
}

#[test]
fn rewriting_twice_is_rewriting_once() {
    let input = "- name: default\n\tserver: a\n\u{3000}name: default\ncurrent-context: default\n\n";
    let once = rewrite_kubeconfig(input, "default");
    assert_eq!(rewrite_kubeconfig(&once, "default"), once);
    let named = rewrite_kubeconfig(input, "dev");
    assert_eq!(rewrite_kubeconfig(&named, "dev"), named);
    assert_eq!(named.lines().count(), input.lines().count());
}

#[test]
fn rewriting_nothing_gives_nothing() {
    assert_eq!(rewrite_kubeconfig("", "c"), "");
    assert_eq!(rewrite_kubeconfig("\n", "c"), "\n");
    assert_eq!(rewrite_kubeconfig("servers: 1", "c"), "servers: 1");
}

#[test]
fn kubeconfig_needs_version_and_clusters() {
    assert!(is_valid_kubeconfig("apiVersion: v1\nclusters:\n"));
    assert!(is_valid_kubeconfig("clusters: []\napiVersion: v1\n"));
    assert!(!is_valid_kubeconfig("apiVersion: v1\n"));
    assert!(!is_valid_kubeconfig("clusters:\n"));
    assert!(!is_valid_kubeconfig(""));
}

#[test]
fn valid_kubeconfig_is_stored_rewritten() {
    let printed = "apiVersion: v1\nclusters:\n- name: default\n";
    assert_eq!(
        kubeconfig_to_store(printed, "dev").unwrap(),
        "apiVersion: v1\nclusters:\n- name: dev\n"
    );
    assert_eq!(kubeconfig_to_store("cat: no such file", "dev"), None);
}

#[test]
fn rewriting_keeps_the_number_of_lines() {
    let input = "a\r\r\nserver: x\r\n\n- name: default\r\nlast\r";
    let output = rewrite_kubeconfig(input, "dev\r");
    assert_eq!(
        output,
        "a\r\nserver: https://127.0.0.1:6443\n\n- name: dev\r\nlast\r"
    );
    let lines: Vec<&str> = output.lines().collect();
    assert_eq!(
        lines,
        vec!["a", "server: https://127.0.0.1:6443", "", "- name: dev", "last\r"]
    );
    assert_eq!(lines.len(), input.lines().count());
}
