use navigator_bootstrap::shell::{shell_escape, shell_join};

#[test]
fn empty_value_becomes_two_quotes() {
    assert_eq!(shell_escape(""), "''");
}

#[test]
fn safe_values_stay_as_they_are() {
    assert_eq!(shell_escape("/usr/bin/my-tool_2.0"), "/usr/bin/my-tool_2.0");
}

#[test]
fn other_values_are_quoted() {
    assert_eq!(shell_escape("a b"), "'a b'");
    assert_eq!(shell_escape("$HOME"), "'$HOME'");
    assert_eq!(shell_escape("é"), "'é'");
    assert_eq!(shell_escape("it's"), "'it'\"'\"'s'");
    assert_eq!(shell_escape("'"), "''\"'\"''");
}

#[test]
fn arguments_become_one_line() {
    let args = vec![
        "echo".to_string(),
        "a b".to_string(),
        String::new(),
        "c'd".to_string(),
    ];
    assert_eq!(shell_join(&args), "echo 'a b' '' 'c'\"'\"'d'");
    let none: Vec<String> = Vec::new();
    assert_eq!(shell_join(&none), "");
}
