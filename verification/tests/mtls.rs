use base64::engine::general_purpose::STANDARD;
use base64::Engine;
use navigator_bootstrap::codec::decode_base64;
use navigator_bootstrap::mtls::{
    parse_cli_mtls_bundle, secret_command, BundleFile, CLI_SECRET_NAME,
};

#[test]
fn base64_is_decoded() {
    assert_eq!(decode_base64("aGVsbG8=").unwrap(), b"hello".to_vec());
    assert_eq!(decode_base64("").unwrap(), Vec::<u8>::new());
    assert_eq!(decode_base64("+/+/").unwrap(), vec![0xfb, 0xff, 0xbf]);
    for n in 0..70usize {
        let bytes: Vec<u8> = (0..n).map(|i| (i * 37 + n) as u8).collect();
        assert_eq!(decode_base64(&STANDARD.encode(&bytes)).unwrap(), bytes);
    }
}

#[test]
fn base64_must_be_canonical() {
    for s in ["aGVsbG8", "aGVsbG9=", "a", "aGVs bG8=", "aGVsbG8=\n", "-_-_", "====", "QUI=QUI="] {
        assert!(decode_base64(s).is_err(), "{s:?}");
    }
}

#[test]
fn secret_is_asked_for_with_three_values() {
    assert_eq!(CLI_SECRET_NAME, "navigator-cli-client");
    assert_eq!(
        secret_command(),
        vec![
            "kubectl",
            "-n",
            "navigator",
            "get",
            "secret",
            "navigator-cli-client",
            "-o",
            r#"jsonpath={.data.ca\.crt}{"\n"}{.data.tls\.crt}{"\n"}{.data.tls\.key}"#,
        ]
    );
}

#[test]
fn secret_gives_the_bundle_back() {
    let printed = format!(
        "{}\n{}\n{}",
        STANDARD.encode(b"authority"),
        STANDARD.encode(b"certificate"),
        STANDARD.encode(b"key")
    );
    let bundle = parse_cli_mtls_bundle(&printed).unwrap().unwrap();
    assert_eq!(bundle.ca, b"authority".to_vec());
    assert_eq!(bundle.cert, b"certificate".to_vec());
    assert_eq!(bundle.key, b"key".to_vec());
    let spaced = format!("  {}\nmore\n", printed.replace('\n', " \r\n "));
    assert!(parse_cli_mtls_bundle(&spaced).unwrap().is_some());
}

#[test]
fn missing_secret_is_no_error() {
    for s in [
        "",
        " \n ",
        "Error from server (NotFound): secrets \"navigator-cli-client\" not found",
        "secret not found",
        "NotFound",
        "Error from server: x",
        "YQ==\nYQ==\n",
        "YQ==\n\nYQ==",
        "\nYQ==\nYQ==",
    ] {
        assert!(matches!(parse_cli_mtls_bundle(s), Ok(None)), "{s:?}");
    }
}

#[test]
fn broken_secret_is_an_error() {
    for (s, value) in [
        ("*\nYQ==\nYQ==", BundleFile::Ca),
        ("YQ==\n*\nYQ==", BundleFile::Cert),
        ("YQ==\nYQ==\nYQ", BundleFile::Key),
        ("*\n?\n!", BundleFile::Ca),
        ("YQ==\n?\n!", BundleFile::Cert),
    ] {
        let malformed = parse_cli_mtls_bundle(s).unwrap_err();
        assert_eq!(malformed.value, value, "{s:?}");
    }
    let malformed = parse_cli_mtls_bundle("*AAA\nYQ==\nYQ==").unwrap_err();
    assert_eq!(malformed.error, STANDARD.decode("*AAA").unwrap_err());
}
