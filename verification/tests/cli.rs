use navigator_bootstrap::cli::{check_endpoint, log_level};

#[test]
fn flags_raise_the_log_level() {
    assert_eq!(log_level(0), "warn");
    assert_eq!(log_level(1), "info");
    assert_eq!(log_level(2), "debug");
    assert_eq!(log_level(3), "trace");
    assert_eq!(log_level(255), "trace");
}

#[test]
fn plain_endpoints_need_leave() {
    assert!(check_endpoint(true, true, false).is_ok());
    assert!(check_endpoint(true, false, false).is_ok());
    assert!(check_endpoint(false, false, false).is_ok());
    assert!(check_endpoint(false, true, true).is_ok());
    assert_eq!(
        check_endpoint(false, true, false).unwrap_err().message(),
        "https is required; set NAVIGATOR_CLUSTER=https://... or use --allow-insecure-access"
    );
}
