use navigator_bootstrap::proxy::{
    check_connect_status, connect_request, gateway_from_parts, is_https, parse_connect_status,
    parse_gateway, tls_endpoint, tls_server_name, uses_tls, ConnectReply, Gateway, GatewayError,
    UrlParts, REPLY_LIMIT,
};

#[test]
fn gateway_is_read_from_its_url() {
    let gateway = parse_gateway("HTTPS://GW.Example.com/proxy/connect?x=1#y").unwrap();
    assert_eq!(gateway.scheme, "https");
    assert_eq!(gateway.host, "gw.example.com");
    assert_eq!(gateway.port, 443);
    assert_eq!(gateway.connect_path, "/proxy/connect");
    let gateway = parse_gateway("http://127.0.0.1:8080").unwrap();
    assert_eq!(gateway.port, 8080);
    assert_eq!(gateway.connect_path, "/");
    assert_eq!(parse_gateway("custom://h:7/p").unwrap().port, 7);
}

#[test]
fn bad_gateways_are_refused() {
    match parse_gateway("not a url") {
        Err(e) => {
            assert!(matches!(e, GatewayError::InvalidUrl(_)));
            assert_eq!(e.message(), "invalid gateway URL");
        }
        Ok(_) => panic!("no URL"),
    }
    match parse_gateway("data:text/plain,x") {
        Err(e) => {
            assert!(matches!(e, GatewayError::MissingHost));
            assert_eq!(e.message(), "gateway URL missing host");
        }
        Ok(_) => panic!("no host"),
    }
    match parse_gateway("custom://host/path") {
        Err(e) => {
            assert!(matches!(e, GatewayError::MissingPort));
            assert_eq!(e.message(), "gateway URL missing port");
        }
        Ok(_) => panic!("no port"),
    }
}

#[test]
fn host_is_missed_before_the_port() {
    let parts = |host: Option<&str>, port| UrlParts {
        scheme: "x".to_string(),
        host: host.map(str::to_string),
        port,
        path: "/p".to_string(),
    };
    assert!(matches!(
        gateway_from_parts(parts(None, None)),
        Err(GatewayError::MissingHost)
    ));
    assert!(matches!(
        gateway_from_parts(parts(Some("h"), None)),
        Err(GatewayError::MissingPort)
    ));
    let gateway = gateway_from_parts(parts(Some("h"), Some(1))).unwrap();
    assert_eq!(
        (gateway.scheme.as_str(), gateway.host.as_str(), gateway.port),
        ("x", "h", 1)
    );
    assert_eq!(gateway.connect_path, "/p");
}

#[test]
fn https_is_encrypted() {
    for scheme in ["https", "HTTPS", "hTTps"] {
        assert!(uses_tls(scheme));
    }
    for scheme in ["http", "", "https ", "httpſ"] {
        assert!(!uses_tls(scheme));
    }
    let gateway = parse_gateway("http://h:81/p").unwrap();
    assert_eq!(tls_endpoint(&gateway), "https://h:81");
}

#[test]
fn request_names_sandbox_and_token() {
    let gateway = parse_gateway("https://gw:1/connect").unwrap();
    let request = connect_request(&gateway, "sb", "tok");
    assert_eq!(
        request,
        "CONNECT /connect HTTP/1.1\r\nHost: gw\r\nX-Sandbox-Id: sb\r\nX-Sandbox-Token: tok\r\n\r\n"
    );
    let lines: Vec<&str> = request.lines().collect();
    assert_eq!(lines.len(), 5);
    assert_eq!(lines[4], "");
}

#[test]
fn status_is_the_second_word() {
    for (reply, status) in [
        ("HTTP/1.1 200 OK\r\n\r\n", 200),
        ("HTTP/1.1 200\r\n\r\n", 200),
        ("HTTP/1.1\t+403 Forbidden", 403),
        ("  x   7  ", 7),
        ("HTTP/1.1 65535 x\n", 65535),
        ("HTTP/1.1 65536 x\n", 0),
        ("HTTP/1.1 OK\r\n", 0),
        ("HTTP/1.1\r\n200\r\n", 0),
        ("\r\nHTTP/1.1 200 OK\r\n", 0),
        ("HTTP/1.1", 0),
        ("", 0),
    ] {
        assert_eq!(parse_connect_status(reply), status, "{reply:?}");
    }
}

#[test]
fn every_status_is_read_back() {
    for status in 0..=u16::MAX {
        let reply = format!("HTTP/1.1 {status} reason here\r\nmore: 1\r\n\r\n");
        assert_eq!(parse_connect_status(&reply), status);
    }
}

#[test]
fn reply_is_read_until_its_head_ends() {
    let mut reply = ConnectReply::new();
    assert!(!reply.read(b"HTTP/1.1 200 OK\r\n"));
    assert!(!reply.read(b"a: b\r"));
    assert!(!reply.read(b"\n\r"));
    assert!(reply.read(b"\nSSH-2.0"));
    assert_eq!(reply.read_connect_status(), 200);
}

#[test]
fn reply_is_read_until_nothing_comes() {
    let mut reply = ConnectReply::new();
    assert!(!reply.read(b"HTTP/1.1 50"));
    assert!(!reply.read(b"3 \xff"));
    assert!(reply.read(b""));
    assert_eq!(reply.read_connect_status(), 503);
    let mut silent = ConnectReply::new();
    assert!(silent.read(b""));
    assert_eq!(silent.read_connect_status(), 0);
}

#[test]
fn reply_is_read_up_to_the_limit() {
    let mut reply = ConnectReply::new();
    let chunk = [b'x'; 1024];
    for _ in 0..8 {
        assert!(!reply.read(&chunk));
    }
    assert!(reply.read(b"x"));
    assert_eq!(REPLY_LIMIT, 8192);
    let mut short = ConnectReply::new();
    assert!(!short.read(b"\r\n\r"));
    assert!(short.read(b"\n"));
}

#[test]
fn only_one_status_grants_the_connection() {
    assert!(check_connect_status(200).is_ok());
    for status in [0u16, 201, 403, 500, 65535] {
        let refused = check_connect_status(status).unwrap_err();
        assert_eq!(
            refused.message(),
            format!("gateway CONNECT failed with status {status}")
        );
    }
}

fn gateway(host: &str) -> Gateway {
    Gateway {
        scheme: "https".to_string(),
        host: host.to_string(),
        port: 443,
        connect_path: "/".to_string(),
    }
}

#[test]
fn certificates_are_for_names_and_addresses() {
    for host in ["localhost", "gw.example.com", "127.0.0.1", "::1"] {
        assert_eq!(tls_server_name(&gateway(host)).unwrap(), host);
    }
    for host in ["", "a b", "[::1]", "-x.com", "a..b"] {
        assert_eq!(
            tls_server_name(&gateway(host)).unwrap_err().message(),
            format!("invalid server name: {host}")
        );
    }
}

#[test]
fn endpoints_are_encrypted_by_their_scheme() {
    assert_eq!(is_https("https://127.0.0.1"), Ok(true));
    assert_eq!(is_https("HTTPS://host:1/x"), Ok(true));
    assert_eq!(is_https("http://127.0.0.1:8080"), Ok(false));
    assert_eq!(is_https("https:no-slashes"), Ok(true));
    assert!(is_https("127.0.0.1").is_err());
    assert!(is_https("").is_err());
}
