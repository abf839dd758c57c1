use stricter::model::err::{repeated_space, source_context};
use stricter::model::write::WriteTask;
use stricter::model::{load, Action, LoadError, SyntaxFailure, Task};

fn write_action(name: Option<&str>, becomes: Option<bool>, source: &str, dest: &str) -> Action {
    Action::new(
        name.map(|n| n.to_string()),
        becomes,
        Task::Write(WriteTask::new(source.to_string(), dest.to_string())),
    )
}

#[test]
fn repeated_space_gives_col_spaces() {
    assert_eq!(repeated_space(0), "");
    assert_eq!(repeated_space(3), "   ");
}

#[test]
fn source_context_centres_on_target() {
    let msg = source_context(b"a\nb\nc\nd\ne\nf\ng\nh\ni", "E", 5, 2);
    assert_eq!(
        msg,
        "  2 | b\n  3 | c\n  4 | d\n  5 | e\n  6 | f\n        ^ E\n  7 | g\n  8 | h\n"
    );
}

#[test]
fn source_context_near_start_and_past_end() {
    let msg = source_context(b"x = 1\ny = \n", "err", 1, 4);
    assert_eq!(
        msg,
        "  1 | x = 1\n  2 | y = \n          ^ err\n  3 | \n  4 | \n  5 | \n  6 | \n  7 | \n"
    );
}

#[test]
fn source_context_of_empty_document() {
    let msg = source_context(b"", "oops", 0, 0);
    assert_eq!(msg, "  1 | \n      ^ oops\n  2 | \n  3 | \n  4 | \n  5 | \n  6 | \n  7 | \n");
}

#[test]
fn source_context_replaces_invalid_utf8() {
    let msg = source_context(b"ok\n\xff\xfebad", "E", 1, 0);
    assert_eq!(
        msg,
        "  1 | ok\n  2 | \u{FFFD}\u{FFFD}bad\n      ^ E\n  3 | \n  4 | \n  5 | \n  6 | \n  7 | \n"
    );
}

#[test]
fn source_context_wide_line_numbers() {
    let doc = vec![b'\n'; 120];
    let msg = source_context(&doc, "E", 103, 1);
    assert_eq!(msg, "100 | \n101 | \n102 | \n103 | \n104 | \n       ^ E\n105 | \n106 | \n");
}

// A model document with one write action, as the TOML reader hands it over.
#[test]
fn load_models_load_first() {
    let from = b"[[action]]\nname = \"motd\"\nwrite = { source = \"motd\", dest = \"/etc/motd\" }\n";
    let doc = vec![(
        "action".to_string(),
        vec![write_action(Some("motd"), None, "motd", "/etc/motd")],
    )];
    let actions = load(from, Ok(doc)).unwrap();
    assert_eq!(actions.len(), 1);
    assert_eq!(actions[0].name().map(|s| s.as_str()), Some("motd"));
    assert_eq!(actions[0].becomes(), None);
    match actions[0].task() {
        Task::Write(w) => {
            assert_eq!(w.source(), "motd");
            assert_eq!(w.dest(), "/etc/motd");
        }
    }
}

#[test]
fn load_keeps_all_actions_in_order() {
    let doc = vec![(
        "action".to_string(),
        vec![
            write_action(Some("a"), Some(true), "x", "/x"),
            write_action(None, Some(false), "y", "/y"),
        ],
    )];
    let actions = load(b"", Ok(doc)).unwrap();
    assert_eq!(actions.len(), 2);
    assert_eq!(actions[0].becomes(), Some(true));
    assert_eq!(actions[1].name(), None);
    assert_eq!(actions[1].becomes(), Some(false));
}

#[test]
fn load_refuses_empty_document() {
    assert_eq!(load(b"", Ok(vec![])), Err(LoadError::EmptyDocument));
}

#[test]
fn load_refuses_other_keys() {
    let doc = vec![("actions".to_string(), vec![])];
    assert_eq!(
        load(b"", Ok(doc)),
        Err(LoadError::UnexpectedKeys { keys: vec!["actions".to_string()] })
    );
    let doc = vec![("action".to_string(), vec![]), ("extra".to_string(), vec![])];
    assert_eq!(
        load(b"", Ok(doc)),
        Err(LoadError::UnexpectedKeys { keys: vec!["action".to_string(), "extra".to_string()] })
    );
}

#[test]
fn load_reports_syntax_error_context() {
    let from = b"x = 1\ny = \n";
    let failure = SyntaxFailure { rendering: "err".to_string(), position: Some((1, 4)) };
    assert_eq!(
        load(from, Err(failure)),
        Err(LoadError::Syntax {
            context: "  1 | x = 1\n  2 | y = \n          ^ err\n  3 | \n  4 | \n  5 | \n  6 | \n  7 | \n"
                .to_string()
        })
    );
}

#[test]
fn load_reports_unknown_position() {
    let failure = SyntaxFailure { rendering: "err".to_string(), position: None };
    assert_eq!(
        load(b"???", Err(failure)),
        Err(LoadError::Syntax { context: "unknown".to_string() })
    );
}

#[test]
fn source_context_at_largest_line() {
    let msg = source_context(b"a", "E", usize::MAX - 3, 0);
    assert_eq!(msg.matches('\n').count(), 8);
    assert!(msg.ends_with(&format!("{} | \n", usize::MAX)));
    assert!(msg.contains(&format!("{} | \n      ^ E\n", usize::MAX - 2)));
}
