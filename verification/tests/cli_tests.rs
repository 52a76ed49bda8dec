use train_db::cli::{parse_cli_line, CliAction};
use train_db::text::{is_whitespace, split_words};
use train_db::sync::NetworkCommand;

fn send_of(a: CliAction) -> (NetworkCommand, Option<String>) {
    match a {
        CliAction::Send { command, confirmation } => (command, confirmation),
        other => panic!("expected a command, got {:?}", other),
    }
}

#[test]
fn split_words_matches_split_whitespace() {
    let inputs = ["", "   ", "set a b", "  set\ta  b \n", "a\u{3000}b\u{85}c", "x\u{200B}y", "é ü"];
    for s in inputs.iter() {
        let expected: Vec<String> = s.split_whitespace().map(|w| w.to_string()).collect();
        assert_eq!(split_words(s), expected, "input {:?}", s);
    }
}

#[test]
fn whitespace_agrees_with_std() {
    for c in ['\t', '\n', '\u{b}', '\u{c}', '\r', ' ', '\u{85}', '\u{a0}', '\u{1680}', '\u{2000}', '\u{200a}', '\u{2028}', '\u{2029}', '\u{202f}', '\u{205f}', '\u{3000}', 'a', '\u{200b}', '\u{feff}', '-'] {
        assert_eq!(is_whitespace(c), c.is_whitespace(), "char {:?}", c);
    }
}

#[test]
fn blank_line_is_empty() {
    assert!(matches!(parse_cli_line(""), CliAction::Empty));
    assert!(matches!(parse_cli_line(" \t \n"), CliAction::Empty));
}

#[test]
fn set_with_key_and_value() {
    let (cmd, conf) = send_of(parse_cli_line("set mykey hello"));
    match cmd {
        NetworkCommand::SetKey { key, value } => {
            assert_eq!(key, "mykey");
            assert_eq!(value, "hello");
        }
        other => panic!("unexpected {:?}", other),
    }
    assert_eq!(conf, Some("Key set successfully".to_string()));
}

#[test]
fn set_ignores_surrounding_whitespace() {
    let (cmd, _) = send_of(parse_cli_line("   set   k   v   "));
    assert!(matches!(cmd, NetworkCommand::SetKey { ref key, ref value } if key == "k" && value == "v"));
}

#[test]
fn set_with_quoted_phrase_sets_the_phrase() {
    // The prompt example: a double-quoted value keeps its spaces.
    let (cmd, conf) = send_of(parse_cli_line("set mykey \"Hello, World!\""));
    assert!(matches!(cmd, NetworkCommand::SetKey { ref key, ref value } if key == "mykey" && value == "Hello, World!"));
    assert_eq!(conf, Some("Key set successfully".to_string()));
}

#[test]
fn quoting_rules() {
    let w = |s: &str| split_words(s);
    assert_eq!(w("a \"b  c\" d"), vec!["a", "b  c", "d"]);
    assert_eq!(w("x \"\" y"), vec!["x", "", "y"]);
    assert_eq!(w("ab\"c d\"e f"), vec!["abc de", "f"]);
    assert_eq!(w("k \"open quote "), vec!["k", "open quote "]);
    assert_eq!(w("\""), vec![""]);
    let (cmd, _) = send_of(parse_cli_line("get \"two words\""));
    assert!(matches!(cmd, NetworkCommand::GetKey { ref key } if key == "two words"));
    assert!(matches!(parse_cli_line("set \"a b\""), CliAction::Usage(_)));
}

#[test]
fn set_with_missing_value_is_a_usage_error() {
    assert!(matches!(parse_cli_line("set k"), CliAction::Usage(ref u) if u == "Usage: set <key> <value>"));
}

#[test]
fn get_and_delete() {
    let (cmd, conf) = send_of(parse_cli_line("get k1"));
    assert!(matches!(cmd, NetworkCommand::GetKey { ref key } if key == "k1"));
    assert_eq!(conf, None);
    let (cmd, conf) = send_of(parse_cli_line("delete k1"));
    assert!(matches!(cmd, NetworkCommand::DeleteKey { ref key } if key == "k1"));
    assert_eq!(conf, Some("Key deleted successfully".to_string()));
    assert!(matches!(parse_cli_line("get"), CliAction::Usage(ref u) if u == "Usage: get <key>"));
    assert!(matches!(parse_cli_line("delete a b"), CliAction::Usage(ref u) if u == "Usage: delete <key>"));
}

#[test]
fn list_help_quit_exit() {
    let (cmd, conf) = send_of(parse_cli_line("list"));
    assert!(matches!(cmd, NetworkCommand::ListKeys));
    assert_eq!(conf, None);
    let (cmd, _) = send_of(parse_cli_line("list extra words"));
    assert!(matches!(cmd, NetworkCommand::ListKeys));
    assert!(matches!(parse_cli_line("help"), CliAction::Help));
    assert!(matches!(parse_cli_line("quit"), CliAction::Quit));
    assert!(matches!(parse_cli_line(" exit "), CliAction::Quit));
}

#[test]
fn unknown_command_names_first_word() {
    assert!(matches!(parse_cli_line("SET a b"), CliAction::Unknown(ref w) if w == "SET"));
    assert!(matches!(parse_cli_line("frobnicate now"), CliAction::Unknown(ref w) if w == "frobnicate"));
}
