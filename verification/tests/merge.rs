use navigator_bootstrap::merge::{
    merge_kubeconfig, merge_named, update_kubeconfig, ExtraField, Kubeconfig, NamedCluster,
    NamedContext, NamedEntry, NamedUser,
};
use serde_yaml::Value;

fn value(text: &str) -> Value {
    Value::String(text.to_string())
}

fn cluster(name: &str, text: &str) -> NamedCluster {
    NamedCluster {
        name: name.to_string(),
        cluster: value(text),
    }
}

fn field(key: &str, text: &str) -> ExtraField {
    ExtraField {
        key: key.to_string(),
        value: value(text),
    }
}

fn shown(list: &[NamedCluster]) -> Vec<(String, Value)> {
    list.iter()
        .map(|entry| (entry.name().to_string(), entry.cluster.clone()))
        .collect()
}

#[test]
fn entries_of_the_same_name_are_replaced_in_place() {
    let mut target = vec![cluster("a", "1"), cluster("b", "2"), cluster("a", "3")];
    merge_named(
        &mut target,
        vec![cluster("a", "4"), cluster("c", "5"), cluster("c", "6")],
    );
    assert_eq!(
        shown(&target),
        vec![
            ("a".to_string(), value("4")),
            ("b".to_string(), value("2")),
            ("a".to_string(), value("3")),
            ("c".to_string(), value("6")),
        ]
    );
}

#[test]
fn merging_the_same_entries_again_changes_nothing() {
    let mut target = vec![cluster("a", "1")];
    merge_named(&mut target, vec![cluster("b", "2"), cluster("a", "3")]);
    let once = shown(&target);
    merge_named(&mut target, vec![cluster("b", "2"), cluster("a", "3")]);
    assert_eq!(shown(&target), once);
}

fn stored() -> Kubeconfig {
    let mut config = Kubeconfig::default();
    config.clusters.push(cluster("dev", "s"));
    config.contexts.push(NamedContext {
        name: "dev".to_string(),
        context: value("c"),
    });
    config.users.push(NamedUser {
        name: "dev".to_string(),
        user: value("u"),
    });
    config.current_context = Some("dev".to_string());
    config.extra.push(field("", "lost"));
    config.extra.push(field("x", "new"));
    config
}

#[test]
fn merging_kubeconfigs_keeps_what_is_not_replaced() {
    let mut target = Kubeconfig::default();
    target.api_version = "v0".to_string();
    target.clusters.push(cluster("other", "o"));
    target.current_context = Some("other".to_string());
    target.preferences = Some(value("p"));
    target.extra.push(field("x", "old"));
    target.extra.push(field("y", "kept"));
    merge_kubeconfig(&mut target, stored());
    assert_eq!(target.api_version, "v0");
    assert_eq!(target.clusters.len(), 2);
    assert_eq!(target.clusters[0].name, "other");
    assert_eq!(target.clusters[1].name, "dev");
    assert_eq!(target.contexts[0].context, value("c"));
    assert_eq!(target.users[0].user, value("u"));
    assert_eq!(target.current_context.as_deref(), Some("dev"));
    assert_eq!(target.preferences, Some(value("p")));
    let extra: Vec<(String, Value)> = target
        .extra
        .iter()
        .map(|entry| (entry.key.clone(), entry.value.clone()))
        .collect();
    assert_eq!(
        extra,
        vec![
            ("x".to_string(), value("new")),
            ("y".to_string(), value("kept")),
        ]
    );
}

#[test]
fn missing_kubeconfig_is_begun() {
    let config = update_kubeconfig(None, stored());
    assert_eq!(config.api_version, "v1");
    assert_eq!(config.kind, "Config");
    assert_eq!(config.clusters.len(), 1);
    assert_eq!(config.extra.len(), 1);
    let again = update_kubeconfig(Some(config), stored());
    assert_eq!(again.clusters.len(), 1);
    assert_eq!(again.extra.len(), 1);
}

#[test]
fn version_and_kind_are_kept() {
    let mut existing = Kubeconfig::default();
    existing.api_version = "v2".to_string();
    existing.kind = "Other".to_string();
    let mut incoming = stored();
    incoming.current_context = None;
    incoming.preferences = Some(value("new"));
    let config = update_kubeconfig(Some(existing), incoming);
    assert_eq!(config.api_version, "v2");
    assert_eq!(config.kind, "Other");
    assert_eq!(config.current_context, None);
    assert_eq!(config.preferences, Some(value("new")));
}
