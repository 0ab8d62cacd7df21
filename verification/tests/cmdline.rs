use buffr_core::cmdline::{parse, Command, COMMAND_NAMES};

#[test]
fn quit_aliases() {
    assert_eq!(parse("q"), Command::Quit);
    assert_eq!(parse("quit"), Command::Quit);
}

#[test]
fn reload() {
    assert_eq!(parse("reload"), Command::Reload);
}

#[test]
fn back_forward() {
    assert_eq!(parse("back"), Command::Back);
    assert_eq!(parse("forward"), Command::Forward);
}

#[test]
fn tabnew() {
    assert_eq!(parse("tabnew"), Command::TabNew);
}

#[test]
fn devtools() {
    assert_eq!(parse("devtools"), Command::DevTools);
}

#[test]
fn open_with_url() {
    assert_eq!(
        parse("open https://example.com"),
        Command::Open("https://example.com".into())
    );
}

#[test]
fn open_without_arg_is_unknown() {
    assert_eq!(parse("open"), Command::Unknown("open".into()));
}

#[test]
fn find_with_query() {
    assert_eq!(parse("find rust"), Command::Find("rust".into()));
}

#[test]
fn find_multi_word_query() {
    assert_eq!(
        parse("find hello world"),
        Command::Find("hello world".into())
    );
}

#[test]
fn find_without_arg_is_unknown() {
    assert_eq!(parse("find"), Command::Unknown("find".into()));
}

#[test]
fn set_two_args() {
    assert_eq!(
        parse("set zoom 1.5"),
        Command::SetOption {
            key: "zoom".into(),
            value: "1.5".into(),
        }
    );
}

#[test]
fn set_three_args_is_unknown() {
    assert_eq!(
        parse("set zoom 1 extra"),
        Command::Unknown("set zoom 1 extra".into())
    );
}

#[test]
fn set_one_arg_is_unknown() {
    assert_eq!(parse("set zoom"), Command::Unknown("set zoom".into()));
}

#[test]
fn bookmark_no_tags() {
    assert_eq!(parse("bookmark"), Command::Bookmark { tags: vec![] });
}

#[test]
fn bookmark_with_tags() {
    assert_eq!(
        parse("bookmark a b c"),
        Command::Bookmark {
            tags: vec!["a".into(), "b".into(), "c".into()],
        }
    );
}

#[test]
fn unknown_command() {
    assert_eq!(parse("foo"), Command::Unknown("foo".into()));
}

#[test]
fn empty_input() {
    assert_eq!(parse(""), Command::Unknown(String::new()));
    assert_eq!(parse("   "), Command::Unknown(String::new()));
}

#[test]
fn whitespace_collapsed_in_args() {
    // Multiple spaces between tokens are allowed.
    assert_eq!(
        parse("open   https://x.example"),
        Command::Open("https://x.example".into())
    );
}

#[test]
fn surrounding_white_space_changes_nothing() {
    assert_eq!(parse("\t find  rust \u{a0}\n"), Command::Find("rust".into()));
    assert_eq!(parse("\u{3000}nonsense words\r\n"), Command::Unknown("nonsense words".into()));
}

#[test]
fn inner_white_space_of_unknown_input_is_kept() {
    assert_eq!(parse("  set   zoom  "), Command::Unknown("set   zoom".into()));
}

#[test]
fn command_words_are_case_sensitive() {
    assert_eq!(parse("Quit"), Command::Unknown("Quit".into()));
}

#[test]
fn command_names_are_sorted_and_known() {
    assert_eq!(COMMAND_NAMES.len(), 11);
    for pair in COMMAND_NAMES.windows(2) {
        assert!(pair[0] < pair[1]);
    }
    for name in COMMAND_NAMES {
        let line = match name {
            "open" | "find" => format!("{name} x"),
            "set" => format!("{name} a b"),
            _ => name.to_string(),
        };
        assert!(!matches!(parse(&line), Command::Unknown(_)), "{line}");
    }
}
