//! Running one command line: the builtins `exit`, `echo`, `type`, `pwd` and
//! `cd`, and the hand-off of everything that needs the operating system.
//!
//! `handle_command` decides what a line asks for. Where the answer needs the
//! file system, the working directory or a child process, it returns a
//! request; whoever runs the shell performs it and gives the outcome to the
//! request's `finish`, which builds the result.

use vstd::prelude::*;
use vstd::string::*;
use crate::text::{chars_of, trim_bounds, same_text, join_from, join_with, trim};
use crate::lexer::{lex_range, lex};
use crate::redirect::{Redirect, RedirectView, redirect_view, split_redirect, split_redirect_spec};
use crate::paths::{join_path, joined_path};

verus! {

/// What the shell does after a command.
#[derive(PartialEq, Eq, Structural, Debug, Clone, Copy)]
pub enum Action {
    Continue,
    Exit,
}

/// The outcome of one command line.
pub struct CommandResult {
    pub stdout: String,
    pub stderr: String,
    pub action: Action,
    pub redirect: Option<Redirect>,
}

/// A command's outcome as plain values.
pub struct ResultView {
    pub stdout: Seq<char>,
    pub stderr: Seq<char>,
    pub action: Action,
    pub redirect: Option<RedirectView>,
}

impl View for CommandResult {
    type V = ResultView;

    open spec fn view(&self) -> ResultView {
        ResultView {
            stdout: self.stdout@,
            stderr: self.stderr@,
            action: self.action,
            redirect: redirect_view(self.redirect),
        }
    }
}

/// An outcome that prints `stdout` and goes on.
pub open spec fn printed(stdout: Seq<char>) -> ResultView {
    ResultView { stdout, stderr: seq![], action: Action::Continue, redirect: None }
}

/// `printed(stdout)` with a redirection attached.
pub open spec fn printed_to(stdout: Seq<char>, redirect: Option<RedirectView>) -> ResultView {
    ResultView { redirect, ..printed(stdout) }
}

impl CommandResult {
    /// Nothing printed; the shell goes on.
    pub fn cont() -> (r: Self)
        ensures
            r@ == printed(seq![]),
    {
        CommandResult {
            stdout: String::new(),
            stderr: String::new(),
            action: Action::Continue,
            redirect: None,
        }
    }

    /// `s` printed on standard output; the shell goes on.
    pub fn out(s: String) -> (r: Self)
        ensures
            r@ == printed(s@),
    {
        CommandResult { stdout: s, stderr: String::new(), action: Action::Continue, redirect: None }
    }
}

/// The environment the shell was started in.
#[derive(Clone)]
pub struct ShellEnv {
    /// The `:`-separated search path for programs.
    pub path: String,
    /// The home directory, for `~`.
    pub home: String,
}

impl Default for ShellEnv {
    fn default() -> (r: Self)
        ensures
            r.path@ == Seq::<char>::empty(),
            r.home@ == Seq::<char>::empty(),
    {
        ShellEnv { path: String::new(), home: String::new() }
    }
}

/// The names of the builtin commands, in the order completion offers them.
pub open spec fn builtin_names() -> Seq<Seq<char>> {
    seq!["echo"@, "exit"@, "type"@, "pwd"@, "cd"@]
}

/// The builtin commands.
pub fn builtins() -> (v: Vec<&'static str>)
    ensures
        v@.map_values(|b: &str| b@) == builtin_names(),
{
    let mut v: Vec<&'static str> = Vec::new();
    v.push("echo");
    v.push("exit");
    v.push("type");
    v.push("pwd");
    v.push("cd");
    assert(v@.map_values(|b: &str| b@) =~= builtin_names());
    v
}

/// Whether `word` names a builtin command.
pub fn is_builtin(word: &str) -> (r: bool)
    ensures
        r == builtin_names().contains(word@),
{
    let names = builtins();
    let ghost views = names@.map_values(|b: &str| b@);
    let n = names.len();
    let mut i: usize = 0;
    while i < n
        invariant
            n == names@.len(),
            views == names@.map_values(|b: &str| b@),
            views == builtin_names(),
            i <= n,
            forall|k: int| 0 <= k < i ==> views[k] != word@,
        decreases n - i,
    {
        if same_text(names[i], word) {
            assert(views[i as int] == word@);
            return true;
        }
        i = i + 1;
    }
    false
}

/// What `type` reports for `arg`, given where a search of the path found it
/// (`None`: nowhere). A builtin is reported as such whatever the search found.
pub open spec fn type_report(arg: Seq<char>, found: Option<Seq<char>>) -> Seq<char> {
    if builtin_names().contains(arg) {
        arg + " is a shell builtin\n"@
    } else {
        match found {
            Some(file) => arg + " is "@ + file + "\n"@,
            None => arg + ": not found\n"@,
        }
    }
}

/// The text of an optional string.
pub open spec fn opt_text(o: Option<&str>) -> Option<Seq<char>> {
    match o {
        Some(s) => Some(s@),
        None => None,
    }
}

/// The report of `type arg`, where `found` is the executable file that the
/// search of the path found for `arg`, if any.
pub fn builtin_type(arg: &str, found: Option<&str>) -> (r: String)
    ensures
        r@ == type_report(arg@, opt_text(found)),
{
    let mut r = String::from_str(arg);
    if is_builtin(arg) {
        r.append(" is a shell builtin\n");
    } else {
        match found {
            Some(file) => {
                r.append(" is ");
                r.append(file);
                r.append("\n");
            },
            None => {
                r.append(": not found\n");
            },
        }
    }
    r
}

/// What `pwd` prints: the working directory, or the error met in reading
/// it, then a newline.
pub fn pwd(current: Result<&str, &str>) -> (r: String)
    ensures
        r@ == match current {
            Ok(dir) => dir@.push('\n'),
            Err(e) => e@.push('\n'),
        },
{
    let mut r = match current {
        Ok(dir) => String::from_str(dir),
        Err(e) => String::from_str(e),
    };
    r.push('\n');
    r
}

/// The directory that `cd arg` goes to: `~` is the home directory, `~/rest`
/// is `rest` under it, and anything else is taken as it is.
pub open spec fn cd_target_spec(arg: Seq<char>, home: Seq<char>) -> Seq<char> {
    if arg == seq!['~'] {
        home
    } else if arg.len() >= 2 && arg[0] == '~' && arg[1] == '/' {
        joined_path(home, arg.skip(2))
    } else {
        arg
    }
}

/// The directory that `cd arg` goes to.
pub fn cd_target(arg: &str, home: &str) -> (r: String)
    ensures
        r@ == cd_target_spec(arg@, home@),
{
    let n = arg.unicode_len();
    if n == 1 && arg.get_char(0) == '~' {
        assert(arg@ =~= seq!['~']);
        String::from_str(home)
    } else if n >= 2 && arg.get_char(0) == '~' && arg.get_char(1) == '/' {
        let rest = arg.substring_char(2, n);
        assert(rest@ =~= arg@.skip(2));
        join_path(home, rest)
    } else {
        String::from_str(arg)
    }
}

/// What `cd` prints when the change of directory failed.
pub open spec fn cd_error(arg: Seq<char>) -> Seq<char> {
    "cd: "@ + arg + ": No such file or directory\n"@
}

/// What `cd arg` prints: nothing when the directory was changed, else the
/// error.
pub fn cd(arg: &str, changed: bool) -> (r: String)
    ensures
        r@ == if changed { Seq::<char>::empty() } else { cd_error(arg@) },
{
    if changed {
        String::new()
    } else {
        let mut r = String::from_str("cd: ");
        r.append(arg);
        r.append(": No such file or directory\n");
        r
    }
}

/// What became of an attempt to run a program.
pub enum ExternalOutcome {
    /// No executable file for it on the search path.
    NotFound,
    /// It ran; what it wrote (decoded lossily) on each stream.
    Finished { stdout: String, stderr: String },
    /// It could not be started; the error.
    Failed(String),
}

/// The result of the command `args` (program first), given what became of
/// the attempt to run it.
pub open spec fn external_result(args: Seq<Seq<char>>, outcome: ExternalOutcome) -> ResultView {
    if args.len() == 0 {
        printed(seq![])
    } else {
        match outcome {
            ExternalOutcome::NotFound => printed(args[0] + ": command not found\n"@),
            ExternalOutcome::Finished { stdout, stderr } => ResultView {
                stdout: stdout@,
                stderr: stderr@,
                action: Action::Continue,
                redirect: None,
            },
            ExternalOutcome::Failed(e) => printed(args[0] + ": "@ + e@ + "\n"@),
        }
    }
}

/// The result of running the command `args` (program first), given what
/// became of the attempt.
pub fn run_external(args: &Vec<String>, outcome: ExternalOutcome) -> (r: CommandResult)
    ensures
        r@ == external_result(args.deep_view(), outcome),
{
    if args.len() == 0 {
        return CommandResult::cont();
    }
    assert(args.deep_view()[0] == args@[0]@);
    let program = args[0].as_str();
    match outcome {
        ExternalOutcome::NotFound => {
            let mut s = String::from_str(program);
            s.append(": command not found\n");
            CommandResult::out(s)
        },
        ExternalOutcome::Finished { stdout, stderr } => CommandResult {
            stdout,
            stderr,
            action: Action::Continue,
            redirect: None,
        },
        ExternalOutcome::Failed(e) => {
            let mut s = String::from_str(program);
            s.append(": ");
            s.append(e.as_str());
            s.append("\n");
            CommandResult::out(s)
        },
    }
}

/// `type` of a word that is not a builtin: the path must be searched.
pub struct TypeQuery {
    pub arg: String,
    pub redirect: Option<Redirect>,
}

/// `pwd`: the working directory must be read.
pub struct PwdQuery {
    pub redirect: Option<Redirect>,
}

/// `cd`: the working directory must be changed to `target`.
pub struct CdRequest {
    pub arg: String,
    pub target: String,
    pub redirect: Option<Redirect>,
}

/// Any other command: the program `args[0]` must be searched on the path
/// and, if found, run with the other words as its arguments.
pub struct ExternalRequest {
    pub args: Vec<String>,
    pub redirect: Option<Redirect>,
}

/// What a command line asks for.
pub enum Step {
    /// The result, with nothing left to do.
    Done(CommandResult),
    Type(TypeQuery),
    Pwd(PwdQuery),
    Cd(CdRequest),
    External(ExternalRequest),
}

/// What a command line asks for, as plain values.
pub enum StepView {
    Done(ResultView),
    Type { arg: Seq<char>, redirect: Option<RedirectView> },
    Pwd { redirect: Option<RedirectView> },
    Cd { arg: Seq<char>, target: Seq<char>, redirect: Option<RedirectView> },
    External { args: Seq<Seq<char>>, redirect: Option<RedirectView> },
}

impl View for Step {
    type V = StepView;

    open spec fn view(&self) -> StepView {
        match self {
            Step::Done(r) => StepView::Done(r@),
            Step::Type(q) => StepView::Type { arg: q.arg@, redirect: redirect_view(q.redirect) },
            Step::Pwd(q) => StepView::Pwd { redirect: redirect_view(q.redirect) },
            Step::Cd(q) => StepView::Cd {
                arg: q.arg@,
                target: q.target@,
                redirect: redirect_view(q.redirect),
            },
            Step::External(q) => StepView::External {
                args: q.args.deep_view(),
                redirect: redirect_view(q.redirect),
            },
        }
    }
}

/// What the command words `args` (after the redirection is taken out) ask
/// for, with `home` the home directory.
pub open spec fn dispatch(
    args: Seq<Seq<char>>,
    redirect: Option<RedirectView>,
    home: Seq<char>,
) -> StepView {
    if args.len() == 0 {
        StepView::Done(printed_to(seq![], redirect))
    } else {
        let head = args[0];
        let arg = if args.len() > 1 { args[1] } else { seq![] };
        if head == "exit"@ {
            StepView::Done(ResultView { action: Action::Exit, ..printed_to(seq![], redirect) })
        } else if head == "echo"@ {
            StepView::Done(printed_to(join_with(args.skip(1), ' ').push('\n'), redirect))
        } else if head == "type"@ {
            if builtin_names().contains(arg) {
                StepView::Done(printed_to(type_report(arg, None), redirect))
            } else {
                StepView::Type { arg, redirect }
            }
        } else if head == "pwd"@ {
            StepView::Pwd { redirect }
        } else if head == "cd"@ {
            StepView::Cd { arg, target: cd_target_spec(arg, home), redirect }
        } else {
            StepView::External { args, redirect }
        }
    }
}

/// What the command line `command` asks for: it is trimmed, split into
/// words, and its redirection taken out; a misplaced redirection operator
/// is reported on standard error.
pub open spec fn command_step(command: Seq<char>, home: Seq<char>) -> StepView {
    match split_redirect_spec(lex(trim(command))) {
        Err(msg) => StepView::Done(
            ResultView { stdout: seq![], stderr: msg, action: Action::Continue, redirect: None },
        ),
        Ok((args, redirect)) => dispatch(args, redirect, home),
    }
}

/// Decides what the command line `command` asks for.
pub fn handle_command(command: &str, shell: &ShellEnv) -> (r: Step)
    ensures
        r@ == command_step(command@, shell.home@),
{
    let cs = chars_of(command);
    let (a, b) = trim_bounds(&cs);
    let tokens = lex_range(&cs, a, b);
    let (args, redirect) = match split_redirect(tokens) {
        Ok(v) => v,
        Err(msg) => {
            return Step::Done(
                CommandResult {
                    stdout: String::new(),
                    stderr: msg,
                    action: Action::Continue,
                    redirect: None,
                },
            );
        },
    };
    let ghost words = args.deep_view();
    let n = args.len();
    if n == 0 {
        return Step::Done(
            CommandResult {
                stdout: String::new(),
                stderr: String::new(),
                action: Action::Continue,
                redirect,
            },
        );
    }
    assert(words[0] == args@[0]@);
    let head = args[0].as_str();
    let arg: String = if n > 1 {
        assert(words[1] == args@[1]@);
        args[1].clone()
    } else {
        String::new()
    };
    if same_text(head, "exit") {
        Step::Done(
            CommandResult {
                stdout: String::new(),
                stderr: String::new(),
                action: Action::Exit,
                redirect,
            },
        )
    } else if same_text(head, "echo") {
        let mut s = join_from(&args, 1, ' ');
        s.push('\n');
        Step::Done(
            CommandResult { stdout: s, stderr: String::new(), action: Action::Continue, redirect },
        )
    } else if same_text(head, "type") {
        if is_builtin(arg.as_str()) {
            let s = builtin_type(arg.as_str(), None);
            Step::Done(
                CommandResult {
                    stdout: s,
                    stderr: String::new(),
                    action: Action::Continue,
                    redirect,
                },
            )
        } else {
            Step::Type(TypeQuery { arg, redirect })
        }
    } else if same_text(head, "pwd") {
        Step::Pwd(PwdQuery { redirect })
    } else if same_text(head, "cd") {
        let target = cd_target(arg.as_str(), shell.home.as_str());
        Step::Cd(CdRequest { arg, target, redirect })
    } else {
        Step::External(ExternalRequest { args, redirect })
    }
}

impl TypeQuery {
    /// The result of `type`, given the executable file that the search of
    /// the path found, if any.
    pub fn finish(self, found: Option<&str>) -> (r: CommandResult)
        ensures
            r@ == printed_to(type_report(self.arg@, opt_text(found)), redirect_view(self.redirect)),
    {
        let s = builtin_type(self.arg.as_str(), found);
        CommandResult { stdout: s, stderr: String::new(), action: Action::Continue, redirect: self.redirect }
    }
}

impl PwdQuery {
    /// The result of `pwd`, given the working directory or the error met in
    /// reading it.
    pub fn finish(self, current: Result<&str, &str>) -> (r: CommandResult)
        ensures
            r@ == printed_to(
                match current {
                    Ok(dir) => dir@.push('\n'),
                    Err(e) => e@.push('\n'),
                },
                redirect_view(self.redirect),
            ),
    {
        let s = pwd(current);
        CommandResult { stdout: s, stderr: String::new(), action: Action::Continue, redirect: self.redirect }
    }
}

impl CdRequest {
    /// The result of `cd`, given whether the working directory was changed.
    pub fn finish(self, changed: bool) -> (r: CommandResult)
        ensures
            r@ == printed_to(
                if changed { Seq::<char>::empty() } else { cd_error(self.arg@) },
                redirect_view(self.redirect),
            ),
    {
        let s = cd(self.arg.as_str(), changed);
        CommandResult { stdout: s, stderr: String::new(), action: Action::Continue, redirect: self.redirect }
    }
}

impl ExternalRequest {
    /// The result of the command, given what became of running it.
    pub fn finish(self, outcome: ExternalOutcome) -> (r: CommandResult)
        ensures
            r@ == (ResultView {
                redirect: redirect_view(self.redirect),
                ..external_result(self.args.deep_view(), outcome)
            }),
    {
        let r = run_external(&self.args, outcome);
        CommandResult { stdout: r.stdout, stderr: r.stderr, action: r.action, redirect: self.redirect }
    }
}

} // verus!
