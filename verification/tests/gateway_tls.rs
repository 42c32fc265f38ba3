use navigator_bootstrap::gateway_tls::{
    gateway_tls_after_manifest, gateway_tls_enabled, gateway_tls_from_node,
    helmchart_manifest_path, parse_bool_env, parse_bool_value,
    parse_gateway_tls_enabled_from_helmchart, parse_gateway_tls_enabled_from_values, TlsLookup,
    TlsSettingError, HELMCHART_MANIFEST_COUNT,
};
use navigator_bootstrap::yaml::YamlScalar;

#[test]
fn words_for_true_and_false() {
    for s in ["true", "1", "yes", " TRUE\n", "Yes"] {
        assert!(matches!(parse_bool_env(s), Ok(true)), "{s:?}");
    }
    for s in ["false", "0", "no", "\tFalse ", "NO"] {
        assert!(matches!(parse_bool_env(s), Ok(false)), "{s:?}");
    }
    for s in ["", "on", "off", "2", "tru e", "ＴＲＵＥ"] {
        match parse_bool_env(s) {
            Ok(_) => panic!("{s:?}"),
            Err(e) => assert_eq!(e.message(), "expected a boolean"),
        }
    }
}

#[test]
fn yaml_values_for_booleans() {
    assert!(matches!(parse_bool_value(&YamlScalar::Bool(true)), Ok(true)));
    assert!(matches!(
        parse_bool_value(&YamlScalar::Text("no".to_string())),
        Ok(false)
    ));
    assert!(parse_bool_value(&YamlScalar::Text("maybe".to_string())).is_err());
    assert!(parse_bool_value(&YamlScalar::Other).is_err());
    assert!(matches!(gateway_tls_from_node(None), Ok(false)));
    assert!(matches!(
        gateway_tls_from_node(Some(YamlScalar::Other)),
        Err(TlsSettingError::Setting)
    ));
}

#[test]
fn helm_values_hold_the_setting() {
    let on = "gateway:\n  tls:\n    enabled: true\n";
    assert!(matches!(parse_gateway_tls_enabled_from_values(on), Ok(true)));
    let quoted = "gateway:\n  tls:\n    enabled: \"No\"\n";
    assert!(matches!(
        parse_gateway_tls_enabled_from_values(quoted),
        Ok(false)
    ));
    for s in ["{}", "gateway: 3", "gateway:\n  tls: {}\n", "", "- a"] {
        assert!(
            matches!(parse_gateway_tls_enabled_from_values(s), Ok(false)),
            "{s:?}"
        );
    }
    assert!(matches!(
        parse_gateway_tls_enabled_from_values("gateway: {tls: {enabled: 3}}"),
        Err(TlsSettingError::Setting)
    ));
    match parse_gateway_tls_enabled_from_values("a: [") {
        Err(e) => assert_eq!(e.message(), "failed to parse Helm values"),
        Ok(_) => panic!("no YAML"),
    }
}

const MANIFEST: &str = "apiVersion: helm.cattle.io/v1
kind: HelmChart
spec:
  valuesContent: |-
    gateway:
      tls:
        enabled: true
";

#[test]
fn manifest_holds_the_values() {
    assert!(matches!(
        parse_gateway_tls_enabled_from_helmchart(MANIFEST),
        Ok(Some(true))
    ));
    assert!(matches!(
        parse_gateway_tls_enabled_from_helmchart("spec: {}"),
        Ok(None)
    ));
    assert!(matches!(
        parse_gateway_tls_enabled_from_helmchart("spec: {valuesContent: 3}"),
        Ok(None)
    ));
    assert!(matches!(
        parse_gateway_tls_enabled_from_helmchart("spec: {valuesContent: 'x: 1'}"),
        Ok(Some(false))
    ));
    assert!(matches!(
        parse_gateway_tls_enabled_from_helmchart("spec: {valuesContent: 'a: ['}"),
        Err(TlsSettingError::Values(_))
    ));
    match parse_gateway_tls_enabled_from_helmchart("a: [") {
        Err(e) => assert_eq!(e.message(), "failed to parse HelmChart manifest"),
        Ok(_) => panic!("no YAML"),
    }
}

#[test]
fn environment_comes_first() {
    assert!(matches!(gateway_tls_enabled(Some("1")), TlsLookup::Answer(true)));
    assert!(matches!(gateway_tls_enabled(Some("no")), TlsLookup::Answer(false)));
    match gateway_tls_enabled(Some("")) {
        TlsLookup::Fail(e) => {
            assert_eq!(e.message(), "NAV_GATEWAY_TLS_ENABLED must be true or false");
        }
        _ => panic!("no boolean"),
    }
    assert!(matches!(gateway_tls_enabled(None), TlsLookup::Read(0)));
}

#[test]
fn manifests_are_looked_at_in_order() {
    assert_eq!(HELMCHART_MANIFEST_COUNT, 2);
    assert_eq!(
        helmchart_manifest_path(0),
        "/var/lib/rancher/k3s/server/manifests/navigator-helmchart.yaml"
    );
    assert_eq!(
        helmchart_manifest_path(1),
        "/opt/navigator/manifests/navigator-helmchart.yaml"
    );
    assert!(matches!(
        gateway_tls_after_manifest(0, Some(MANIFEST)),
        TlsLookup::Answer(true)
    ));
    assert!(matches!(gateway_tls_after_manifest(0, None), TlsLookup::Read(1)));
    assert!(matches!(
        gateway_tls_after_manifest(0, Some("spec: 1")),
        TlsLookup::Read(1)
    ));
    assert!(matches!(
        gateway_tls_after_manifest(0, Some("a: [")),
        TlsLookup::Fail(TlsSettingError::Manifest(_))
    ));
    match gateway_tls_after_manifest(1, None) {
        TlsLookup::Fail(e) => assert_eq!(
            e.message(),
            "failed to determine gateway TLS configuration from NAV_GATEWAY_TLS_ENABLED or HelmChart manifest"
        ),
        _ => panic!("nothing is known"),
    }
}
