use shell::command::{handle_command, Action, CommandResult, ExternalOutcome, ShellEnv, Step};
use shell::completion::complete_builtin;
use shell::redirect::{split_redirect, RedirectKind};

/// Carries a request out as a shell would on a machine where the search path
/// finds nothing and no directory can be entered.
fn settle(step: Step) -> CommandResult {
    match step {
        Step::Done(r) => r,
        Step::Type(q) => q.finish(None),
        Step::Pwd(q) => q.finish(Ok("/")),
        Step::Cd(q) => q.finish(false),
        Step::External(q) => q.finish(ExternalOutcome::NotFound),
    }
}

fn run(input: &str, shell: &ShellEnv) -> (String, Action) {
    let r = settle(handle_command(input, shell));
    (r.stdout, r.action)
}

#[test]
fn test_echo_returns_continue_and_expected_characters_with_newline() {
    let (output, action) = run("echo pineapple blueberry orange", &ShellEnv::default());
    assert_eq!(output, "pineapple blueberry orange\n");
    assert_eq!(action, Action::Continue);
}

#[test]
fn test_echo_with_no_args_returns_just_newline() {
    let (output, action) = run("echo", &ShellEnv::default());
    assert_eq!(output, "\n");
    assert_eq!(action, Action::Continue);
}

#[test]
fn test_invalid_command_returns_continue_and_command_not_found_message() {
    let (output, action) = run("invalid_apple_command", &ShellEnv::default());
    assert_eq!(output, "invalid_apple_command: command not found\n");
    assert_eq!(action, Action::Continue);
}

#[test]
fn test_exit_returns_exit() {
    let (_output, action) = run("exit", &ShellEnv::default());
    assert_eq!(action, Action::Exit);
}

#[test]
fn test_handle_command_trims_whitespace_and_newline() {
    let (output, action) = run("   echo hi  \n", &ShellEnv::default());
    assert_eq!(output, "hi\n");
    assert_eq!(action, Action::Continue);
}

#[test]
fn test_type_reports_each_builtin_as_shell_builtin() {
    for builtin in ["echo", "exit", "type"] {
        let (output, action) = run(&format!("type {}", builtin), &ShellEnv::default());
        assert_eq!(output, format!("{} is a shell builtin\n", builtin));
        assert_eq!(action, Action::Continue);
    }
}

#[test]
fn test_type_reports_not_found_for_unknown_command() {
    let (output, action) = run("type definitely_not_a_real_cmd", &ShellEnv::default());
    assert_eq!(output, "definitely_not_a_real_cmd: not found\n");
    assert_eq!(action, Action::Continue);
}

#[test]
fn test_cd_invalid_path_returns_error_message() {
    let step = handle_command("cd /definitely_not_a_real_dir_apple_xyz", &ShellEnv::default());
    match &step {
        Step::Cd(q) => assert_eq!(q.target, "/definitely_not_a_real_dir_apple_xyz"),
        _ => panic!("cd must ask for a change of directory"),
    }
    let r = settle(step);
    assert_eq!(
        r.stdout,
        "cd: /definitely_not_a_real_dir_apple_xyz: No such file or directory\n"
    );
    assert_eq!(r.action, Action::Continue);
}

#[test]
fn test_cd_tilde_with_invalid_home_returns_error() {
    let shell = ShellEnv { home: "/definitely_not_a_real_home_xyz_apple".into(), ..Default::default() };
    let step = handle_command("cd ~", &shell);
    match &step {
        Step::Cd(q) => assert_eq!(q.target, "/definitely_not_a_real_home_xyz_apple"),
        _ => panic!("cd must ask for a change of directory"),
    }
    let r = settle(step);
    assert_eq!(r.stdout, "cd: ~: No such file or directory\n");
    assert_eq!(r.action, Action::Continue);
}

#[test]
fn test_split_redirect_basic_stdout() {
    let tokens = vec!["echo".into(), "hi".into(), ">".into(), "out.txt".into()];
    let (cmd, redir) = split_redirect(tokens).unwrap();
    assert_eq!(cmd, vec!["echo".to_string(), "hi".into()]);
    let r = redir.unwrap();
    assert_eq!(r.kind, RedirectKind::Stdout);
    assert_eq!(r.path, "out.txt");
    assert!(!r.append);
}

#[test]
fn test_split_redirect_1_prefix_is_stdout() {
    let tokens = vec!["echo".into(), "1>".into(), "out.txt".into()];
    let r = split_redirect(tokens).unwrap().1.unwrap();
    assert_eq!(r.kind, RedirectKind::Stdout);
}

#[test]
fn test_split_redirect_stderr() {
    let tokens = vec!["ls".into(), "2>".into(), "err.txt".into()];
    let r = split_redirect(tokens).unwrap().1.unwrap();
    assert_eq!(r.kind, RedirectKind::Stderr);
    assert!(!r.append);
}

#[test]
fn test_split_redirect_append_variants() {
    for (op, kind) in [
        (">>", RedirectKind::Stdout),
        ("1>>", RedirectKind::Stdout),
        ("2>>", RedirectKind::Stderr),
    ] {
        let tokens = vec!["x".into(), op.into(), "p".into()];
        let r = split_redirect(tokens).unwrap().1.unwrap();
        assert!(r.append, "{} should be append", op);
        assert_eq!(r.kind, kind);
    }
}

#[test]
fn test_split_redirect_no_operator() {
    let tokens = vec!["echo".into(), "hi".into()];
    let (_, redir) = split_redirect(tokens).unwrap();
    assert!(redir.is_none());
}

#[test]
fn test_split_redirect_missing_path_is_error() {
    let tokens = vec!["echo".into(), ">".into()];
    assert!(split_redirect(tokens).is_err());
}

#[test]
fn test_redirect_inside_double_quotes_is_literal() {
    let r = settle(handle_command("echo \"1 > 2\"", &ShellEnv::default()));
    assert_eq!(r.stdout, "1 > 2\n");
    assert!(r.redirect.is_none());
}

#[test]
fn test_handle_command_attaches_redirect_to_result() {
    let r = settle(handle_command("echo hi > /tmp/out", &ShellEnv::default()));
    assert_eq!(r.stdout, "hi\n");
    let redir = r.redirect.unwrap();
    assert_eq!(redir.path, "/tmp/out");
    assert_eq!(redir.kind, RedirectKind::Stdout);
}

#[test]
fn test_complete_builtin_unique_prefix_returns_single_match() {
    assert_eq!(complete_builtin("ech", 3), (0, vec!["echo"]));
    assert_eq!(complete_builtin("exi", 3), (0, vec!["exit"]));
}

#[test]
fn test_complete_builtin_no_match_returns_empty() {
    let (_, names) = complete_builtin("xyz", 3);
    assert!(names.is_empty());
}

#[test]
fn test_complete_builtin_after_space_returns_empty() {
    let (start, names) = complete_builtin("echo ", 5);
    assert_eq!(start, 5);
    assert!(names.is_empty());
}

#[test]
fn test_complete_builtin_shared_prefix_returns_all_matches() {
    let (start, names) = complete_builtin("e", 1);
    assert_eq!(start, 0);
    assert!(names.contains(&"echo"));
    assert!(names.contains(&"exit"));
}
