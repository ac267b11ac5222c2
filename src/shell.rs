use vstd::prelude::*;

use crate::command::{
    builtin_of, first_op_from, is_redirect_op, kind_of, opt_view, redirect_split, Builtin,
    CommandKind, ShellCommand,
};
use crate::lexer::{join_words, parse_command, strings_view, tokenize};
use crate::number::{failure_text, parse_i32, parse_i32_spec};
use crate::path::{
    file_name, file_name_chars, prefix, resolve_path, suffix, target_path,
};
use crate::registry::Registry;
use crate::text::{chars_of, concat, join_with_spaces, string_of, trim_end, trimmed_end};

verus! {

/// The session state: the executables known, the working directory, the
/// home directory, and whether the search path is still to be scanned again
/// before the first command.
pub struct Context {
    pub registry: Registry,
    pub cwd: String,
    pub home: String,
    pub refresh_pending: bool,
}

impl Context {
    /// A session in `cwd` with no executables known yet; the search path is
    /// to be scanned once more before the first command.
    pub fn new(home: String, cwd: String) -> (r: Context)
        ensures
            r.registry@ == Map::<Seq<char>, Seq<char>>::empty(),
            r.cwd@ == cwd@,
            r.home@ == home@,
            r.refresh_pending,
    {
        Context { registry: Registry::new(), cwd, home, refresh_pending: true }
    }

    /// Whether the search path is to be scanned again now: true once, before
    /// the first command, and false from then on.
    pub fn take_refresh(&mut self) -> (r: bool)
        ensures
            r == old(self).refresh_pending,
            !final(self).refresh_pending,
            final(self).registry@ == old(self).registry@,
            final(self).cwd@ == old(self).cwd@,
            final(self).home@ == old(self).home@,
    {
        let r = self.refresh_pending;
        self.refresh_pending = false;
        r
    }

    /// Completes `cd <input>` once the file system has answered on the
    /// resolved path: `canonical` is its canonical form, none where it does
    /// not exist, and `is_dir` says whether it is a directory. Only an
    /// existing directory becomes the working directory.
    pub fn finish_cd(&mut self, input: &str, canonical: Option<String>, is_dir: bool) -> (r: Action)
        ensures
            r@ == cd_answer(input@, opt_view(canonical), is_dir),
            final(self).cwd@ == cd_cwd(old(self).cwd@, opt_view(canonical), is_dir),
            final(self).home@ == old(self).home@,
            final(self).registry@ == old(self).registry@,
    {
        match canonical {
            None => {
                let head = concat("cd: ", input);
                Action::Report(concat(head.as_str(), ": No such directory"))
            },
            Some(dir) => {
                if is_dir {
                    self.cwd = dir.clone();
                    Action::Enter(dir)
                } else {
                    let head = concat("cd: ", dir.as_str());
                    Action::Report(concat(head.as_str(), ": No such directory"))
                }
            },
        }
    }
}

/// What the caller is to do after a line has been evaluated.
#[derive(Debug, PartialEq, Eq)]
pub enum Action {
    /// Nothing at all.
    Nothing,
    /// Print the text and a newline on standard output.
    Print(String),
    /// Print the text and a newline on standard error.
    Report(String),
    /// Create or truncate the file at `path` and write `text` to it.
    WriteText { path: String, text: String },
    /// Create or truncate the file at `path` and write `bytes` to it.
    WriteBytes { path: String, bytes: Vec<u8> },
    /// Write the bytes, unchanged, on standard output.
    Emit(Vec<u8>),
    /// End the process with this status.
    Exit(i32),
    /// Run `program` with `args` and wait for it; its output goes to
    /// `redirect` where that is given.
    Run { program: String, args: Vec<String>, redirect: Option<String> },
    /// Make the directory the process's working directory.
    Enter(String),
    /// Canonicalize `target`, the resolved path, see whether it is a
    /// directory, and hand the answer to `Context::finish_cd` together with
    /// `input`, the argument as the user gave it.
    Check { input: String, target: String },
}

/// An action with its texts as character sequences.
pub enum ActionView {
    Nothing,
    Print(Seq<char>),
    Report(Seq<char>),
    WriteText(Seq<char>, Seq<char>),
    WriteBytes(Seq<char>, Seq<u8>),
    Emit(Seq<u8>),
    Exit(int),
    Run(Seq<char>, Seq<Seq<char>>, Option<Seq<char>>),
    Enter(Seq<char>),
    Check(Seq<char>, Seq<char>),
}

impl View for Action {
    type V = ActionView;

    open spec fn view(&self) -> ActionView {
        match self {
            Action::Nothing => ActionView::Nothing,
            Action::Print(t) => ActionView::Print(t@),
            Action::Report(t) => ActionView::Report(t@),
            Action::WriteText { path, text } => ActionView::WriteText(path@, text@),
            Action::WriteBytes { path, bytes } => ActionView::WriteBytes(path@, bytes@),
            Action::Emit(b) => ActionView::Emit(b@),
            Action::Exit(v) => ActionView::Exit(*v as int),
            Action::Run { program, args, redirect } => ActionView::Run(
                program@,
                strings_view(args@),
                opt_view(*redirect),
            ),
            Action::Enter(d) => ActionView::Enter(d@),
            Action::Check { input, target } => ActionView::Check(input@, target@),
        }
    }
}

/// `echo`: the arguments joined by spaces, into the file where one is given
/// (with a newline), else printed without trailing whitespace.
pub open spec fn echo_outcome(args: Seq<Seq<char>>, redirect: Option<Seq<char>>) -> ActionView {
    match redirect {
        Some(p) => ActionView::WriteText(p, join_words(args) + seq!['\n']),
        None => ActionView::Print(trim_end(join_words(args))),
    }
}

/// `type`: says whether the name is a builtin, an executable (and where), or
/// neither; without a name it does nothing.
pub open spec fn type_outcome(args: Seq<Seq<char>>, reg: Map<Seq<char>, Seq<char>>) -> ActionView {
    if args.len() == 0 {
        ActionView::Nothing
    } else {
        let n = trim_end(args[0]);
        if builtin_of(n) is Some {
            ActionView::Print(n + " is a shell builtin"@)
        } else if reg.contains_key(n) {
            ActionView::Print(n + " is "@ + reg[n])
        } else {
            ActionView::Print(n + ": not found"@)
        }
    }
}

/// `pwd`: the working directory without one trailing separator.
pub open spec fn pwd_outcome(cwd: Seq<char>) -> ActionView {
    if cwd.len() > 0 && cwd.last() == '/' {
        ActionView::Print(cwd.drop_last())
    } else {
        ActionView::Print(cwd)
    }
}

/// `exit`: status 0 without arguments, else the first argument read as an
/// integer, or a report of why it is not one.
pub open spec fn exit_outcome(args: Seq<Seq<char>>) -> ActionView {
    if args.len() == 0 {
        ActionView::Exit(0)
    } else {
        match parse_i32_spec(trim_end(args[0])) {
            Ok(v) => ActionView::Exit(v),
            Err(f) => ActionView::Report(failure_text(f)),
        }
    }
}

/// `cd`: home without arguments, a check of the resolved path with one, and
/// a usage message with more.
pub open spec fn cd_outcome(args: Seq<Seq<char>>, cwd: Seq<char>, home: Seq<char>) -> ActionView {
    if args.len() == 0 {
        ActionView::Enter(home)
    } else if args.len() == 1 {
        ActionView::Check(args[0], target_path(cwd, home, args[0]))
    } else {
        ActionView::Print("cd: please provide only one directory"@)
    }
}

/// What a builtin does with its arguments.
pub open spec fn builtin_outcome(
    b: Builtin,
    args: Seq<Seq<char>>,
    redirect: Option<Seq<char>>,
    reg: Map<Seq<char>, Seq<char>>,
    cwd: Seq<char>,
    home: Seq<char>,
) -> ActionView {
    match b {
        Builtin::Echo => echo_outcome(args, redirect),
        Builtin::Exit => exit_outcome(args),
        Builtin::Type => type_outcome(args, reg),
        Builtin::Pwd => pwd_outcome(cwd),
        Builtin::Cd => cd_outcome(args, cwd, home),
    }
}

/// The working directory after a builtin: only `cd` without arguments
/// changes it here, to the home directory.
pub open spec fn cwd_after_builtin(
    b: Builtin,
    args: Seq<Seq<char>>,
    cwd: Seq<char>,
    home: Seq<char>,
) -> Seq<char> {
    if b == Builtin::Cd && args.len() == 0 {
        home
    } else {
        cwd
    }
}

/// A program found in the registry is run; any other name is reported.
pub open spec fn external_outcome(
    name: Seq<char>,
    args: Seq<Seq<char>>,
    redirect: Option<Seq<char>>,
    reg: Map<Seq<char>, Seq<char>>,
) -> ActionView {
    if reg.contains_key(name) {
        ActionView::Run(reg[name], args, redirect)
    } else {
        ActionView::Print(name + ": command not found"@)
    }
}

/// What a line of tokens does.
pub open spec fn outcome(
    toks: Seq<Seq<char>>,
    reg: Map<Seq<char>, Seq<char>>,
    cwd: Seq<char>,
    home: Seq<char>,
) -> ActionView {
    if toks.len() == 0 {
        ActionView::Nothing
    } else {
        let (args, redirect) = redirect_split(toks.skip(1));
        match kind_of(toks[0]) {
            CommandKind::Builtin(b) => builtin_outcome(b, args, redirect, reg, cwd, home),
            CommandKind::External => external_outcome(toks[0], args, redirect, reg),
        }
    }
}

/// The working directory after a line of tokens.
pub open spec fn cwd_after(toks: Seq<Seq<char>>, cwd: Seq<char>, home: Seq<char>) -> Seq<char> {
    if toks.len() == 0 {
        cwd
    } else {
        match kind_of(toks[0]) {
            CommandKind::Builtin(b) => cwd_after_builtin(
                b,
                redirect_split(toks.skip(1)).0,
                cwd,
                home,
            ),
            CommandKind::External => cwd,
        }
    }
}

/// The report or the change of directory that ends `cd <input>`: a path
/// that does not exist is reported by the argument as the user gave it, and
/// one that exists but is no directory by its canonical form.
pub open spec fn cd_answer(input: Seq<char>, canonical: Option<Seq<char>>, is_dir: bool) -> ActionView {
    match canonical {
        None => ActionView::Report("cd: "@ + input + ": No such directory"@),
        Some(dir) => if is_dir {
            ActionView::Enter(dir)
        } else {
            ActionView::Report("cd: "@ + dir + ": No such directory"@)
        },
    }
}

/// The working directory after `cd` has had its answer.
pub open spec fn cd_cwd(cwd: Seq<char>, canonical: Option<Seq<char>>, is_dir: bool) -> Seq<char> {
    match canonical {
        Some(dir) => if is_dir {
            dir
        } else {
            cwd
        },
        None => cwd,
    }
}

/// The index of the first `:` in `s` at or after `i`.
pub open spec fn first_colon_from(s: Seq<char>, i: int) -> Option<int>
    decreases s.len() - i,
{
    if i < 0 || i >= s.len() {
        None
    } else if s[i] == ':' {
        Some(i)
    } else {
        first_colon_from(s, i + 1)
    }
}

/// The part of an error text before its first colon, cut down to its file
/// name; a part that names no file (empty, the root, `.`, or ending in `..`)
/// is kept as it stands.
pub open spec fn error_source(head: Seq<char>) -> Seq<char> {
    match file_name(head) {
        Some(b) => b,
        None => head,
    }
}

/// A failed program's error text as the shell shows it: the part before
/// the first colon cut down to its file name, the colon, and the rest
/// without trailing whitespace. A text without a colon only loses its
/// trailing whitespace.
pub open spec fn child_error_text(s: Seq<char>) -> Seq<char> {
    match first_colon_from(s, 0) {
        Some(k) => error_source(s.take(k)) + seq![':'] + trim_end(s.skip(k + 1)),
        None => trim_end(s),
    }
}

/// What is done with a finished program's output.
pub open spec fn run_outcome(
    redirect: Option<Seq<char>>,
    success: bool,
    stdout: Seq<u8>,
    stderr: Seq<char>,
) -> Seq<ActionView> {
    let kept = match redirect {
        Some(p) => seq![ActionView::WriteBytes(p, stdout)],
        None => if success {
            seq![ActionView::Emit(stdout)]
        } else {
            seq![]
        },
    };
    if success {
        kept
    } else {
        kept.push(ActionView::Report(child_error_text(stderr)))
    }
}

/// The views of a list of actions.
pub open spec fn actions_view(v: Seq<Action>) -> Seq<ActionView> {
    v.map_values(|a: Action| a@)
}

/// Rewrites a failed program's error text: the part before the first colon
/// is cut down to its file name and the rest loses its trailing whitespace.
pub fn format_child_error(stderr: &str) -> (r: String)
    ensures
        r@ == child_error_text(stderr@),
{
    let cs = chars_of(stderr);
    let n = cs.len();
    let mut k: usize = 0;
    while k < n && cs[k] != ':'
        invariant
            n == cs@.len(),
            cs@ == stderr@,
            k <= n,
            first_colon_from(cs@, k as int) == first_colon_from(cs@, 0),
        decreases n - k,
    {
        k = k + 1;
    }
    if k == n {
        return trimmed_end(stderr);
    }
    let head = match file_name_chars(&cs, k) {
        Some(b) => string_of(&b),
        None => string_of(&prefix(&cs, k)),
    };
    let rest = string_of(&suffix(&cs, k + 1));
    let with_colon = concat(head.as_str(), ":");
    proof {
        reveal_strlit(":");
        assert(":"@ =~= seq![':']);
    }
    concat(with_colon.as_str(), trimmed_end(rest.as_str()).as_str())
}

/// Decides what to do with the output of a program that has finished:
/// `success` says whether it exited with status zero. Its standard output
/// goes to the redirection file where one is given, else to standard output
/// if it succeeded; a failure is reported from its error text.
pub fn finish_run(redirect: Option<String>, success: bool, stdout: Vec<u8>, stderr: &str) -> (r: Vec<
    Action,
>)
    ensures
        actions_view(r@) == run_outcome(opt_view(redirect), success, stdout@, stderr@),
{
    let mut r: Vec<Action> = Vec::new();
    match redirect {
        Some(path) => r.push(Action::WriteBytes { path, bytes: stdout }),
        None => if success {
            r.push(Action::Emit(stdout));
        },
    }
    if !success {
        r.push(Action::Report(format_child_error(stderr)));
    }
    assert(actions_view(r@) =~= run_outcome(opt_view(redirect), success, stdout@, stderr@));
    r
}

/// `cd` with one argument leaves the working directory as it was when the
/// evaluation ends, and again when the resolved path turns out not to exist
/// or not to be a directory. The failure is then reported as
/// `cd: <path>: No such directory`, naming the argument as given where the
/// path does not exist, and the canonical path where it is no directory.
pub proof fn lemma_failed_cd_keeps_cwd(
    toks: Seq<Seq<char>>,
    reg: Map<Seq<char>, Seq<char>>,
    cwd: Seq<char>,
    home: Seq<char>,
    canonical: Option<Seq<char>>,
    is_dir: bool,
)
    requires
        toks.len() == 2,
        toks[0] == "cd"@,
        !is_redirect_op(toks[1]),
        canonical is None || !is_dir,
    ensures
        outcome(toks, reg, cwd, home) == ActionView::Check(toks[1], target_path(cwd, home, toks[1])),
        cwd_after(toks, cwd, home) == cwd,
        cd_cwd(cwd, canonical, is_dir) == cwd,
        canonical is None ==> cd_answer(toks[1], canonical, is_dir) == ActionView::Report(
            "cd: "@ + toks[1] + ": No such directory"@,
        ),
        canonical is Some ==> cd_answer(toks[1], canonical, is_dir) == ActionView::Report(
            "cd: "@ + canonical->0 + ": No such directory"@,
        ),
{
    reveal_strlit("cd");
    reveal_strlit("echo");
    reveal_strlit("exit");
    reveal_strlit("type");
    reveal_strlit("pwd");
    assert(toks[0][0] == 'c' && toks[0].len() == 2);
    assert(builtin_of(toks[0]) == Some(Builtin::Cd));
    let a = toks.skip(1);
    assert(a.len() == 1 && a[0] == toks[1]);
    assert(first_op_from(a, 1) is None);
    assert(redirect_split(a).0 == a);
}

/// A name that is neither a builtin nor in the registry is reported as not
/// found, and evaluation goes on with the working directory unchanged.
pub proof fn lemma_unknown_command(
    toks: Seq<Seq<char>>,
    reg: Map<Seq<char>, Seq<char>>,
    cwd: Seq<char>,
    home: Seq<char>,
)
    requires
        toks.len() > 0,
        builtin_of(toks[0]) is None,
        !reg.contains_key(toks[0]),
    ensures
        outcome(toks, reg, cwd, home) == ActionView::Print(toks[0] + ": command not found"@),
        cwd_after(toks, cwd, home) == cwd,
{
}

/// Carries out the builtin `b`.
pub fn eval_builtin(
    b: Builtin,
    args: &Vec<String>,
    redirect: Option<String>,
    ctx: &mut Context,
) -> (r: Action)
    ensures
        r@ == builtin_outcome(
            b,
            strings_view(args@),
            opt_view(redirect),
            old(ctx).registry@,
            old(ctx).cwd@,
            old(ctx).home@,
        ),
        final(ctx).cwd@ == cwd_after_builtin(b, strings_view(args@), old(ctx).cwd@, old(ctx).home@),
        final(ctx).home@ == old(ctx).home@,
        final(ctx).registry@ == old(ctx).registry@,
{
    let ghost a = strings_view(args@);
    match b {
        Builtin::Echo => {
            let joined = join_with_spaces(args);
            match redirect {
                Some(path) => {
                    let text = concat(joined.as_str(), "\n");
                    proof {
                        reveal_strlit("\n");
                        assert("\n"@ =~= seq!['\n']);
                    }
                    Action::WriteText { path, text }
                },
                None => Action::Print(trimmed_end(joined.as_str())),
            }
        },
        Builtin::Exit => {
            if args.len() == 0 {
                return Action::Exit(0);
            }
            assert(a[0] == args@[0]@);
            let status = trimmed_end(args[0].as_str());
            match parse_i32(status.as_str()) {
                Ok(v) => Action::Exit(v),
                Err(f) => Action::Report(f.describe()),
            }
        },
        Builtin::Type => {
            if args.len() == 0 {
                return Action::Nothing;
            }
            assert(a[0] == args@[0]@);
            let name = trimmed_end(args[0].as_str());
            if Builtin::from_name(name.as_str()).is_some() {
                Action::Print(concat(name.as_str(), " is a shell builtin"))
            } else {
                match ctx.registry.lookup(name.as_str()) {
                    Some(path) => {
                        let head = concat(name.as_str(), " is ");
                        Action::Print(concat(head.as_str(), path.as_str()))
                    },
                    None => Action::Print(concat(name.as_str(), ": not found")),
                }
            }
        },
        Builtin::Pwd => {
            let cwd = chars_of(ctx.cwd.as_str());
            let n = cwd.len();
            if n > 0 && cwd[n - 1] == '/' {
                let kept = prefix(&cwd, n - 1);
                assert(cwd@.take(n - 1) =~= cwd@.drop_last());
                Action::Print(string_of(&kept))
            } else {
                Action::Print(ctx.cwd.clone())
            }
        },
        Builtin::Cd => {
            if args.len() == 0 {
                ctx.cwd = ctx.home.clone();
                Action::Enter(ctx.home.clone())
            } else if args.len() == 1 {
                assert(a[0] == args@[0]@);
                let target = resolve_path(ctx, args[0].as_str());
                Action::Check { input: args[0].clone(), target }
            } else {
                Action::Print(String::from_str("cd: please provide only one directory"))
            }
        },
    }
}

/// Runs the program registered as `command`, or reports that there is none.
pub fn eval_executable(
    command: &str,
    args: Vec<String>,
    redirect: Option<String>,
    ctx: &Context,
) -> (r: Action)
    ensures
        r@ == external_outcome(command@, strings_view(args@), opt_view(redirect), ctx.registry@),
{
    match ctx.registry.lookup(command) {
        Some(path) => Action::Run { program: path.clone(), args, redirect },
        None => Action::Print(concat(command, ": command not found")),
    }
}

/// Evaluates one input line: splits it into tokens, takes the command apart
/// and carries it out.
pub fn eval(command: &str, ctx: &mut Context) -> (r: Action)
    ensures
        r@ == outcome(tokenize(command@), old(ctx).registry@, old(ctx).cwd@, old(ctx).home@),
        final(ctx).cwd@ == cwd_after(tokenize(command@), old(ctx).cwd@, old(ctx).home@),
        final(ctx).home@ == old(ctx).home@,
        final(ctx).registry@ == old(ctx).registry@,
{
    let tokens = parse_command(command);
    if tokens.len() == 0 {
        return Action::Nothing;
    }
    assert(strings_view(tokens@)[0] == tokens@[0]@);
    let cmd = ShellCommand::from_tokens(&tokens);
    match cmd.kind {
        CommandKind::Builtin(b) => eval_builtin(b, &cmd.args, cmd.redirect, ctx),
        CommandKind::External => eval_executable(cmd.name.as_str(), cmd.args, cmd.redirect, ctx),
    }
}

} // verus!
