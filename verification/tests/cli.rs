use appendfile::cli::{parse_cli, validate_prefix, CliAction, CliQuery, CliStep};

fn args(list: &[&str]) -> Vec<String> {
    list.iter().map(|s| s.to_string()).collect()
}

#[test]
fn parses_explicit_target_and_positionals() {
    let temp_dir = "/tmp/appendfile-cli-test";
    let input = "/tmp/appendfile-cli-test/source.png";
    let (mut parse, step) = parse_cli(args(&["--target", temp_dir, input, "ayca"]));
    match step {
        CliStep::Ask(CliQuery::InputIsFile { input: asked }) => assert_eq!(asked, input),
        _ => panic!("expected the input check"),
    }
    let action = match parse.input_checked(true) {
        CliStep::Done(result) => result.expect("expected successful parse"),
        CliStep::Ask(_) => panic!("expected successful parse"),
    };
    match action {
        CliAction::Run { input: parsed_input, prefix, target, persist_target } => {
            assert_eq!(parsed_input, input);
            assert_eq!(prefix, "ayca");
            assert_eq!(target, temp_dir);
            assert!(persist_target);
        }
        CliAction::Help => panic!("unexpected help action"),
    }
}

#[test]
fn rejects_prefix_with_path_traversal() {
    let (mut parse, step) = parse_cli(args(&["/tmp/source.png", "../evil"]));
    assert!(matches!(step, CliStep::Ask(CliQuery::InputIsFile { .. })));
    match parse.input_checked(true) {
        CliStep::Done(Err(err)) => assert!(err.contains("path separators")),
        _ => panic!("expected parse error"),
    }
}

#[test]
fn rejects_missing_positional_arguments() {
    let (_, step) = parse_cli(args(&["input-only"]));
    match step {
        CliStep::Done(Err(err)) => assert!(err.contains("expected positional arguments")),
        _ => panic!("expected parse error"),
    }
}

#[test]
fn returns_help_for_help_flag() {
    let (_, step) = parse_cli(args(&["--help"]));
    assert!(matches!(step, CliStep::Done(Ok(CliAction::Help))));
}

#[test]
fn help_wins_over_later_errors() {
    let (_, step) = parse_cli(args(&["-h", "--target"]));
    assert!(matches!(step, CliStep::Done(Ok(CliAction::Help))));
}

#[test]
fn earlier_error_wins_over_help() {
    let (_, step) = parse_cli(args(&["--target=", "-h"]));
    match step {
        CliStep::Done(Err(err)) => assert_eq!(err, "missing value for --target"),
        _ => panic!("expected parse error"),
    }
}

#[test]
fn missing_target_value_is_an_error() {
    let (_, step) = parse_cli(args(&["a.png", "p", "-t"]));
    match step {
        CliStep::Done(Err(err)) => assert_eq!(err, "missing value for --target"),
        _ => panic!("expected parse error"),
    }
}

#[test]
fn last_target_wins_and_assignment_form_is_stripped() {
    let (mut parse, _) = parse_cli(args(&["-t", "/one", "a.png", "--target=--target=/two", "p"]));
    match parse.input_checked(true) {
        CliStep::Done(Ok(CliAction::Run { target, persist_target, .. })) => {
            assert_eq!(target, "/two");
            assert!(persist_target);
        }
        _ => panic!("expected a run"),
    }
}

#[test]
fn too_many_positionals_is_an_error() {
    let (_, step) = parse_cli(args(&["a", "b", "c"]));
    match step {
        CliStep::Done(Err(err)) => assert_eq!(err, "expected positional arguments: <input> <prefix>"),
        _ => panic!("expected parse error"),
    }
}

#[test]
fn missing_input_file_is_reported() {
    let (mut parse, _) = parse_cli(args(&["nothing.png", "p"]));
    match parse.input_checked(false) {
        CliStep::Done(Err(err)) => assert_eq!(err, "input file not found: nothing.png"),
        _ => panic!("expected parse error"),
    }
}

#[test]
fn target_falls_back_to_saved_then_current_dir() {
    let (mut parse, _) = parse_cli(args(&["in.png", "  pre  "]));
    assert!(matches!(parse.input_checked(true), CliStep::Ask(CliQuery::SavedTarget)));
    match parse.saved_target_loaded(Ok(Some("/saved".to_string()))) {
        CliStep::Done(Ok(CliAction::Run { input, prefix, target, persist_target })) => {
            assert_eq!(input, "in.png");
            assert_eq!(prefix, "pre");
            assert_eq!(target, "/saved");
            assert!(!persist_target);
        }
        _ => panic!("expected a run"),
    }

    let (mut parse, _) = parse_cli(args(&["in.png", "pre"]));
    parse.input_checked(true);
    assert!(matches!(parse.saved_target_loaded(Ok(None)), CliStep::Ask(CliQuery::CurrentDir)));
    match parse.current_dir_read(Ok("/cwd".to_string())) {
        CliStep::Done(Ok(CliAction::Run { target, persist_target, .. })) => {
            assert_eq!(target, "/cwd");
            assert!(!persist_target);
        }
        _ => panic!("expected a run"),
    }

    let (mut parse, _) = parse_cli(args(&["in.png", "pre"]));
    parse.input_checked(true);
    parse.saved_target_loaded(Ok(None));
    match parse.current_dir_read(Err("denied".to_string())) {
        CliStep::Done(Err(err)) => assert_eq!(err, "failed to read current directory: denied"),
        _ => panic!("expected an error"),
    }

    let (mut parse, _) = parse_cli(args(&["in.png", "pre"]));
    parse.input_checked(true);
    match parse.saved_target_loaded(Err("broken".to_string())) {
        CliStep::Done(Err(err)) => assert_eq!(err, "broken"),
        _ => panic!("expected an error"),
    }
}

#[test]
fn validate_prefix_cases() {
    assert_eq!(validate_prefix(" ayca\t"), Ok("ayca".to_string()));
    assert_eq!(validate_prefix("   "), Err("prefix cannot be empty".to_string()));
    let unsafe_msg = Err("prefix must not contain path separators or \"..\"".to_string());
    assert_eq!(validate_prefix("a/b"), unsafe_msg);
    assert_eq!(validate_prefix("a\\b"), unsafe_msg);
    assert_eq!(validate_prefix("a..b"), unsafe_msg);
    assert_eq!(validate_prefix("a.b"), Ok("a.b".to_string()));
}
