use shell::command::{
    builtin_type, builtins, cd, cd_target, handle_command, is_builtin, pwd, run_external, Action,
    CommandResult, ExternalOutcome, ShellEnv, Step,
};
use shell::completion::{candidates, complete_builtin, matching_names};
use shell::lexer::parse;
use shell::paths::{first_executable, is_executable, lookup_candidates, split_path};
use shell::redirect::{redirect_op_of, route_stream, split_redirect, Redirect, RedirectKind};
use shell::text::{has_prefix, is_whitespace, same_text};

fn words(v: &[&str]) -> Vec<String> {
    v.iter().map(|s| s.to_string()).collect()
}

fn done(step: Step) -> CommandResult {
    match step {
        Step::Done(r) => r,
        _ => panic!("expected a finished result"),
    }
}

#[test]
fn lexer_splits_on_unquoted_whitespace() {
    assert_eq!(parse("a b  c"), words(&["a", "b", "c"]));
    assert_eq!(parse("a\tb"), words(&["a", "b"]));
    assert_eq!(parse("a\nb\r\nc"), words(&["a", "b", "c"]));
    assert_eq!(parse("a\u{a0}b"), words(&["a", "b"]));
    assert_eq!(parse("   "), Vec::<String>::new());
    assert_eq!(parse(""), Vec::<String>::new());
}

#[test]
fn lexer_single_quotes_are_literal() {
    assert_eq!(parse("'a  \"b\\c'"), words(&["a  \"b\\c"]));
    assert_eq!(parse("'> x'"), words(&["> x"]));
}

#[test]
fn lexer_double_quotes_are_literal() {
    assert_eq!(parse("\"x > y\""), words(&["x > y"]));
    assert_eq!(parse("\"it's\""), words(&["it's"]));
}

#[test]
fn lexer_empty_quotes_make_an_empty_word() {
    assert_eq!(parse("''"), words(&[""]));
    assert_eq!(parse("a \"\" b"), words(&["a", "", "b"]));
}

#[test]
fn lexer_quotes_join_adjacent_text() {
    assert_eq!(parse("ab'c d'ef"), words(&["abc def"]));
}

#[test]
fn lexer_backslash_outside_quotes_escapes_any_character() {
    assert_eq!(parse("a\\ b"), words(&["a b"]));
    assert_eq!(parse("\\'x"), words(&["'x"]));
    assert_eq!(parse("\\n"), words(&["n"]));
}

#[test]
fn lexer_backslash_in_double_quotes() {
    assert_eq!(parse("\"a\\$b\""), words(&["a$b"]));
    assert_eq!(parse("\"a\\\"b\""), words(&["a\"b"]));
    assert_eq!(parse("\"a\\\\b\""), words(&["a\\b"]));
    assert_eq!(parse("\"a\\nb\""), words(&["a\\nb"]));
}

#[test]
fn lexer_backslash_in_single_quotes_stays() {
    assert_eq!(parse("'a\\nb'"), words(&["a\\nb"]));
}

#[test]
fn lexer_trailing_backslash_is_dropped() {
    assert_eq!(parse("ab\\"), words(&["ab"]));
}

#[test]
fn lexer_joined_words_come_back() {
    let ws = ["alpha", "beta", "gamma"];
    assert_eq!(parse(&ws.join(" ")), words(&ws));
}

#[test]
fn text_helpers() {
    assert!(same_text("abc", "abc"));
    assert!(!same_text("abc", "abd"));
    assert!(!same_text("ab", "abc"));
    assert!(has_prefix("echo", "ec"));
    assert!(has_prefix("echo", ""));
    assert!(!has_prefix("ec", "echo"));
}

#[test]
fn redirect_operators() {
    assert_eq!(redirect_op_of(">"), Some((RedirectKind::Stdout, false)));
    assert_eq!(redirect_op_of("1>"), Some((RedirectKind::Stdout, false)));
    assert_eq!(redirect_op_of("2>"), Some((RedirectKind::Stderr, false)));
    assert_eq!(redirect_op_of(">>"), Some((RedirectKind::Stdout, true)));
    assert_eq!(redirect_op_of("1>>"), Some((RedirectKind::Stdout, true)));
    assert_eq!(redirect_op_of("2>>"), Some((RedirectKind::Stderr, true)));
    assert_eq!(redirect_op_of("3>"), None);
    assert_eq!(redirect_op_of(">>>"), None);
}

#[test]
fn split_redirect_uses_first_operator_and_drops_the_rest() {
    let (cmd, redir) = split_redirect(words(&["a", ">", "f", "b", "2>", "g"])).unwrap();
    assert_eq!(cmd, words(&["a"]));
    let r = redir.unwrap();
    assert_eq!(r.path, "f");
    assert_eq!(r.kind, RedirectKind::Stdout);
    assert!(!r.append);
}

#[test]
fn split_redirect_error_message_names_the_operator() {
    assert_eq!(
        split_redirect(words(&["echo", "2>>"])).unwrap_err(),
        "syntax error near unexpected token `2>>`\n"
    );
}

#[test]
fn split_redirect_of_nothing() {
    let (cmd, redir) = split_redirect(Vec::new()).unwrap();
    assert!(cmd.is_empty());
    assert!(redir.is_none());
}

#[test]
fn route_stream_follows_the_redirect_kind() {
    let red = Redirect { kind: RedirectKind::Stderr, path: "e.txt".into(), append: true };
    assert_eq!(route_stream(Some(&red), RedirectKind::Stderr), Some(("e.txt".to_string(), true)));
    assert_eq!(route_stream(Some(&red), RedirectKind::Stdout), None);
    assert_eq!(route_stream(None, RedirectKind::Stdout), None);
}

#[test]
fn builtins_in_order() {
    assert_eq!(builtins(), vec!["echo", "exit", "type", "pwd", "cd"]);
    assert!(is_builtin("pwd"));
    assert!(is_builtin("cd"));
    assert!(!is_builtin("ls"));
    assert!(!is_builtin(""));
}

#[test]
fn type_reports() {
    assert_eq!(builtin_type("ls", Some("/bin/ls")), "ls is /bin/ls\n");
    assert_eq!(builtin_type("ls", None), "ls: not found\n");
    assert_eq!(builtin_type("cd", Some("/usr/bin/cd")), "cd is a shell builtin\n");
}

#[test]
fn pwd_output() {
    assert_eq!(pwd(Ok("/home/u")), "/home/u\n");
    assert_eq!(pwd(Err("gone")), "gone\n");
}

#[test]
fn cd_targets() {
    assert_eq!(cd_target("~", "/home/u"), "/home/u");
    assert_eq!(cd_target("~/sub", "/home/u"), "/home/u/sub");
    assert_eq!(cd_target("~//abs", "/home/u"), "/abs");
    assert_eq!(cd_target("~x", "/home/u"), "~x");
    assert_eq!(cd_target("/tmp", "/home/u"), "/tmp");
    assert_eq!(cd_target("", "/home/u"), "");
}

#[test]
fn cd_messages() {
    assert_eq!(cd("/x", true), "");
    assert_eq!(cd("/x", false), "cd: /x: No such file or directory\n");
}

#[test]
fn search_path_joins_and_replaces() {
    assert_eq!(lookup_candidates("ls", "/usr/bin/"), words(&["/usr/bin/ls"]));
    assert_eq!(lookup_candidates("/bin/ls", "/usr/bin"), words(&["/bin/ls"]));
}

#[test]
fn external_results() {
    let args = words(&["prog", "x"]);
    let r = run_external(&args, ExternalOutcome::NotFound);
    assert_eq!(r.stdout, "prog: command not found\n");
    let r = run_external(
        &args,
        ExternalOutcome::Finished { stdout: "out\n".into(), stderr: "err\n".into() },
    );
    assert_eq!(r.stdout, "out\n");
    assert_eq!(r.stderr, "err\n");
    assert_eq!(r.action, Action::Continue);
    let r = run_external(&args, ExternalOutcome::Failed("Permission denied".into()));
    assert_eq!(r.stdout, "prog: Permission denied\n");
    let r = run_external(&Vec::new(), ExternalOutcome::NotFound);
    assert_eq!(r.stdout, "");
}

#[test]
fn search_path_directories() {
    assert_eq!(split_path("/bin:/usr/bin"), words(&["/bin", "/usr/bin"]));
    assert_eq!(split_path("a::b"), words(&["a", "", "b"]));
    assert_eq!(split_path(""), words(&[""]));
    assert_eq!(split_path("a:"), words(&["a", ""]));
}

#[test]
fn lookup_candidates_in_path_order() {
    assert_eq!(lookup_candidates("ls", "/bin:/usr/bin"), words(&["/bin/ls", "/usr/bin/ls"]));
}

#[test]
fn executable_modes() {
    assert!(is_executable(true, 0o755));
    assert!(is_executable(true, 0o100));
    assert!(!is_executable(true, 0o644));
    assert!(!is_executable(false, 0o755));
}

#[test]
fn completion_of_names() {
    assert_eq!(
        matching_names(words(&["cat", "cargo", "ls", "ca"]), "ca"),
        words(&["cat", "cargo", "ca"])
    );
    assert_eq!(matching_names(words(&["x"]), ""), words(&["x"]));
    let offered = candidates(&vec!["echo"], &words(&["ecco"]));
    assert_eq!(offered.len(), 2);
    assert_eq!(offered[0].display, "echo");
    assert_eq!(offered[0].replacement, "echo ");
    assert_eq!(offered[1].display, "ecco");
    assert_eq!(offered[1].replacement, "ecco ");
}

#[test]
fn complete_builtin_uses_text_before_cursor() {
    assert_eq!(complete_builtin("ty something", 2), (0, vec!["type"]));
    assert_eq!(complete_builtin("p", 1), (0, vec!["pwd"]));
    assert_eq!(complete_builtin("", 0), (0, vec!["echo", "exit", "type", "pwd", "cd"]));
}

#[test]
fn complete_builtin_off_boundary_sees_no_text() {
    // byte 1 falls inside the two-byte 'é'; byte 9 is past the end
    assert_eq!(complete_builtin("é", 1), (0, vec!["echo", "exit", "type", "pwd", "cd"]));
    assert_eq!(complete_builtin("ec", 9), (0, vec!["echo", "exit", "type", "pwd", "cd"]));
}

#[test]
fn requests_for_the_operating_system() {
    let shell = ShellEnv { path: "/bin".into(), home: "/home/u".into() };
    match handle_command("pwd", &shell) {
        Step::Pwd(q) => assert!(q.redirect.is_none()),
        _ => panic!("pwd"),
    }
    match handle_command("type ls", &shell) {
        Step::Type(q) => {
            assert_eq!(q.arg, "ls");
            let r = q.finish(Some("/bin/ls"));
            assert_eq!(r.stdout, "ls is /bin/ls\n");
        }
        _ => panic!("type"),
    }
    match handle_command("cd ~/docs > log", &shell) {
        Step::Cd(q) => {
            assert_eq!(q.arg, "~/docs");
            assert_eq!(q.target, "/home/u/docs");
            let r = q.finish(true);
            assert_eq!(r.stdout, "");
            assert_eq!(r.redirect.unwrap().path, "log");
        }
        _ => panic!("cd"),
    }
    match handle_command("ls -l 2>> errs", &shell) {
        Step::External(q) => {
            assert_eq!(q.args, words(&["ls", "-l"]));
            let r = q.finish(ExternalOutcome::Finished { stdout: "x\n".into(), stderr: "".into() });
            assert_eq!(r.stdout, "x\n");
            let red = r.redirect.unwrap();
            assert_eq!(red.kind, RedirectKind::Stderr);
            assert!(red.append);
        }
        _ => panic!("external"),
    }
    match handle_command("pwd", &shell) {
        Step::Pwd(q) => assert_eq!(q.finish(Ok("/tmp")).stdout, "/tmp\n"),
        _ => panic!("pwd"),
    }
}

#[test]
fn empty_line_does_nothing() {
    let r = done(handle_command("  \t ", &ShellEnv::default()));
    assert_eq!(r.stdout, "");
    assert_eq!(r.stderr, "");
    assert_eq!(r.action, Action::Continue);
    assert!(r.redirect.is_none());
}

#[test]
fn misplaced_operator_reports_on_stderr() {
    let r = done(handle_command("echo hi >", &ShellEnv::default()));
    assert_eq!(r.stdout, "");
    assert_eq!(r.stderr, "syntax error near unexpected token `>`\n");
    assert_eq!(r.action, Action::Continue);
    assert!(r.redirect.is_none());
}

#[test]
fn only_exit_exits() {
    assert_eq!(done(handle_command("exit 3", &ShellEnv::default())).action, Action::Exit);
    assert_eq!(done(handle_command("echo exit", &ShellEnv::default())).action, Action::Continue);
    assert_eq!(done(handle_command("exit >", &ShellEnv::default())).action, Action::Continue);
    let r = done(handle_command("'exit' > f", &ShellEnv::default()));
    assert_eq!(r.action, Action::Exit);
    assert_eq!(r.redirect.unwrap().path, "f");
}

#[test]
fn echo_keeps_quoted_spacing() {
    let r = done(handle_command("echo 'a   b'  c", &ShellEnv::default()));
    assert_eq!(r.stdout, "a   b c\n");
}

#[test]
fn type_with_no_argument_asks_for_the_empty_name() {
    match handle_command("type", &ShellEnv::default()) {
        Step::Type(q) => assert_eq!(q.finish(None).stdout, ": not found\n"),
        _ => panic!("type"),
    }
}

#[test]
fn command_result_constructors() {
    let r = CommandResult::cont();
    assert_eq!(r.stdout, "");
    assert_eq!(r.action, Action::Continue);
    let r = CommandResult::out("hi".into());
    assert_eq!(r.stdout, "hi");
    assert_eq!(r.stderr, "");
    assert!(r.redirect.is_none());
}

#[test]
fn default_environment_is_empty() {
    let env = ShellEnv::default();
    assert_eq!(env.path, "");
    assert_eq!(env.home, "");
}

#[test]
fn whitespace_agrees_with_std_on_every_character() {
    for u in 0u32..=0x10FFFF {
        if let Some(c) = char::from_u32(u) {
            assert_eq!(is_whitespace(c), c.is_whitespace(), "U+{:04X}", u);
        }
    }
}

#[test]
fn quote_free_text_lexes_to_its_pieces() {
    let s = "  ls\t-l \u{3000} /tmp\n";
    let expected: Vec<String> = s.split_whitespace().map(String::from).collect();
    assert_eq!(parse(s), expected);
}

#[test]
fn words_of_a_quote_free_prefix_then_anything() {
    let s1 = "echo  a";
    let s2 = "'b c' \"d\\\"e\" f\\ g";
    let joined = parse(&format!("{} {}", s1, s2));
    assert_eq!(joined, [parse(s1), parse(s2)].concat());
    assert_eq!(joined, words(&["echo", "a", "b c", "d\"e", "f g"]));
}

#[test]
fn first_executable_takes_the_first_runnable_file() {
    let files = words(&["/a/ls", "/b/ls", "/c/ls"]);
    assert_eq!(first_executable(files.clone(), vec![false, true, true]), Some("/b/ls".to_string()));
    assert_eq!(first_executable(files.clone(), vec![false, false, false]), None);
    assert_eq!(first_executable(files.clone(), vec![false]), None);
    assert_eq!(first_executable(Vec::new(), vec![true]), None);
}
