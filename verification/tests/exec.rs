use navigator_bootstrap::exec::{
    exec_capture_with_exit, print_file_command, read_container_file, LogChunk,
};

#[test]
fn output_of_a_command_is_captured() {
    let chunks = vec![
        LogChunk::StdOut(b"one ".to_vec()),
        LogChunk::StdIn(b"hidden".to_vec()),
        LogChunk::StdErr(b"two ".to_vec()),
        LogChunk::Console("dr\u{e9}i".as_bytes().to_vec()),
    ];
    let (output, status) = exec_capture_with_exit(&chunks, Some(0));
    assert_eq!(output, "one two dr\u{e9}i");
    assert_eq!(status, 0);
}

#[test]
fn each_message_is_read_by_itself() {
    let chunks = vec![
        LogChunk::StdOut(vec![b'a', 0xc3]),
        LogChunk::StdOut(vec![0xa9, b'b', 0xff]),
    ];
    let (output, _) = exec_capture_with_exit(&chunks, Some(0));
    assert_eq!(output, "a\u{fffd}\u{fffd}b\u{fffd}");
}

#[test]
fn missing_exit_code_is_a_failure() {
    let none: Vec<LogChunk> = Vec::new();
    assert_eq!(exec_capture_with_exit(&none, None), (String::new(), 1));
    assert_eq!(exec_capture_with_exit(&none, Some(-3)).1, -3);
}

#[test]
fn file_of_the_container_is_read() {
    assert_eq!(print_file_command("/a b"), vec!["cat", "/a b"]);
    assert_eq!(
        read_container_file("x".to_string(), 0),
        Some("x".to_string())
    );
    assert_eq!(read_container_file("x".to_string(), 1), None);
    assert_eq!(read_container_file("x".to_string(), -1), None);
}
