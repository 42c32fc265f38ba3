use navigator_bootstrap::ssh::{
    rsync_command, sandbox_connect, sandbox_exec, sandbox_rsync, ssh_base_command,
    ssh_session_config, SshSession,
};

fn session() -> SshSession {
    SshSession {
        sandbox_id: "sb-1".to_string(),
        token: "t0k".to_string(),
        gateway_scheme: "https".to_string(),
        gateway_host: "gw.example.com".to_string(),
        gateway_port: 443,
        connect_path: "/proxy/connect".to_string(),
    }
}

#[test]
fn proxy_command_names_the_session() {
    assert_eq!(
        ssh_session_config("/opt/my tools/navigator", &session()),
        "'/opt/my tools/navigator' ssh-proxy --gateway https://gw.example.com:443/proxy/connect --sandbox-id sb-1 --token t0k"
    );
}

const BASE: [&str; 8] = [
    "-o",
    "ProxyCommand=p q",
    "-o",
    "StrictHostKeyChecking=no",
    "-o",
    "UserKnownHostsFile=/dev/null",
    "-o",
    "GlobalKnownHostsFile=/dev/null",
];

#[test]
fn connecting_asks_for_a_terminal() {
    let command = ssh_base_command("p q", sandbox_connect());
    assert_eq!(command.program, "ssh");
    let mut expected: Vec<&str> = BASE.to_vec();
    expected.extend([
        "-tt",
        "-o",
        "RequestTTY=force",
        "-o",
        "SetEnv=TERM=xterm-256color",
        "sandbox",
    ]);
    assert_eq!(command.args, expected);
}

#[test]
fn command_runs_without_a_terminal() {
    let words = vec!["ls".to_string(), "a b".to_string()];
    let command = ssh_base_command("p q", sandbox_exec(&words, false).unwrap());
    let mut expected: Vec<&str> = BASE.to_vec();
    expected.extend(["-T", "-o", "RequestTTY=no", "sandbox", "ls 'a b'"]);
    assert_eq!(command.args, expected);
}

#[test]
fn command_runs_with_a_terminal() {
    let words = vec!["top".to_string()];
    let call = sandbox_exec(&words, true).unwrap();
    assert_eq!(
        call.args,
        vec![
            "-tt",
            "-o",
            "RequestTTY=force",
            "-o",
            "SetEnv=TERM=xterm-256color",
            "sandbox",
            "top",
        ]
    );
}

#[test]
fn no_command_is_an_error() {
    let none: Vec<String> = Vec::new();
    assert_eq!(
        sandbox_exec(&none, true).unwrap_err().message(),
        "no command provided"
    );
    assert!(sandbox_exec(&none, false).is_err());
}

#[test]
fn rsync_goes_through_the_same_client() {
    let command = rsync_command("'x y' z");
    assert_eq!(command.program, "rsync");
    assert_eq!(
        command.args,
        vec![
            "-az",
            "--from0",
            "--files-from=-",
            "--relative",
            "-e",
            "ssh -o 'ProxyCommand='\"'\"'x y'\"'\"' z' -o StrictHostKeyChecking=no -o UserKnownHostsFile=/dev/null -o GlobalKnownHostsFile=/dev/null",
            ".",
            "sandbox:/sandbox",
        ]
    );
}

#[test]
fn files_are_listed_with_null_characters() {
    let files = vec!["a".to_string(), "b/c d".to_string(), "é".to_string()];
    let list = sandbox_rsync(&files).unwrap();
    assert_eq!(list.as_bytes(), "./a\0./b/c d\0./é\0".as_bytes());
    let listed: Vec<&str> = list.split_terminator('\0').collect();
    assert_eq!(listed, vec!["./a", "./b/c d", "./é"]);
    let none: Vec<String> = Vec::new();
    assert_eq!(sandbox_rsync(&none), None);
}
