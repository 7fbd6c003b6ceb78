use channel_gate::envfile::{parse_env_line, trim_env_quotes, trim_spaces, EnvLine};

#[test]
fn blank_and_comment_lines_are_skipped() {
    assert!(matches!(parse_env_line(""), EnvLine::Skip));
    assert!(matches!(parse_env_line("   \t "), EnvLine::Skip));
    assert!(matches!(parse_env_line("# a comment"), EnvLine::Skip));
    assert!(matches!(parse_env_line("  # indented comment"), EnvLine::Skip));
}

#[test]
fn a_line_without_equals_is_malformed() {
    assert!(matches!(parse_env_line("no equals here"), EnvLine::Malformed));
}

#[test]
fn a_plain_assignment_is_parsed() {
    match parse_env_line("KEY=value") {
        EnvLine::Entry { key, value } => {
            assert_eq!(key, "KEY");
            assert_eq!(value, "value");
        },
        _ => panic!("expected an entry"),
    }
}

#[test]
fn values_are_trimmed_unquoted_and_unescaped() {
    match parse_env_line("  KEY = \"first\\nsecond\"\r") {
        EnvLine::Entry { key, value } => {
            assert_eq!(key, "KEY");
            assert_eq!(value, "first\nsecond");
        },
        _ => panic!("expected an entry"),
    }
}

#[test]
fn only_the_first_equals_splits() {
    match parse_env_line("A==b") {
        EnvLine::Entry { key, value } => {
            assert_eq!(key, "A");
            assert_eq!(value, "=b");
        },
        _ => panic!("expected an entry"),
    }
}

#[test]
fn an_empty_key_is_preserved_for_the_caller_to_refuse() {
    match parse_env_line("=x") {
        EnvLine::Entry { key, value } => {
            assert_eq!(key, "");
            assert_eq!(value, "x");
        },
        _ => panic!("expected an entry"),
    }
}

#[test]
fn trims_work_on_their_own() {
    assert_eq!(trim_spaces("  a b \t"), "a b");
    assert_eq!(trim_env_quotes("'\"a\"'"), "a");
    assert_eq!(trim_env_quotes("inner'quote"), "inner'quote");
}
