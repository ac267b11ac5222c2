use vstd::prelude::*;

use crate::lexer::strings_view;
use crate::text::same_text;

verus! {

/// The commands that the shell carries out itself.
#[derive(Clone, Copy, Debug, PartialEq, Eq, Structural)]
pub enum Builtin {
    Echo,
    Exit,
    Type,
    Pwd,
    Cd,
}

/// Whether a command is carried out by the shell or by a program found in
/// the search path.
#[derive(Clone, Copy, Debug, PartialEq, Eq, Structural)]
pub enum CommandKind {
    Builtin(Builtin),
    External,
}

/// The builtin that `name` stands for, if any.
pub open spec fn builtin_of(name: Seq<char>) -> Option<Builtin> {
    if name == "echo"@ {
        Some(Builtin::Echo)
    } else if name == "exit"@ {
        Some(Builtin::Exit)
    } else if name == "type"@ {
        Some(Builtin::Type)
    } else if name == "pwd"@ {
        Some(Builtin::Pwd)
    } else if name == "cd"@ {
        Some(Builtin::Cd)
    } else {
        None
    }
}

/// The kind of the command called `name`.
pub open spec fn kind_of(name: Seq<char>) -> CommandKind {
    match builtin_of(name) {
        Some(b) => CommandKind::Builtin(b),
        None => CommandKind::External,
    }
}

/// Whether the token sends output to a file.
pub open spec fn is_redirect_op(t: Seq<char>) -> bool {
    t == seq!['>'] || t == seq!['1', '>']
}

/// The index of the first redirection operator at or after `i`.
pub open spec fn first_op_from(a: Seq<Seq<char>>, i: int) -> Option<int>
    decreases a.len() - i,
{
    if i < 0 || i >= a.len() {
        None
    } else if is_redirect_op(a[i]) {
        Some(i)
    } else {
        first_op_from(a, i + 1)
    }
}

/// The arguments proper and the redirection target, out of the tokens that
/// follow a command name: the arguments stop before the first operator, and
/// the target is the last token.
pub open spec fn redirect_split(a: Seq<Seq<char>>) -> (Seq<Seq<char>>, Option<Seq<char>>) {
    match first_op_from(a, 0) {
        Some(k) => (a.take(k), Some(a.last())),
        None => (a, None),
    }
}

/// The characters of an optional string.
pub open spec fn opt_view(o: Option<String>) -> Option<Seq<char>> {
    match o {
        Some(s) => Some(s@),
        None => None,
    }
}

impl Builtin {
    /// The builtin called `name`, if there is one.
    pub fn from_name(name: &str) -> (r: Option<Builtin>)
        ensures
            r == builtin_of(name@),
    {
        if same_text(name, "echo") {
            Some(Builtin::Echo)
        } else if same_text(name, "exit") {
            Some(Builtin::Exit)
        } else if same_text(name, "type") {
            Some(Builtin::Type)
        } else if same_text(name, "pwd") {
            Some(Builtin::Pwd)
        } else if same_text(name, "cd") {
            Some(Builtin::Cd)
        } else {
            None
        }
    }
}

/// Whether `t` is `>` or `1>`.
pub fn redirect_op(t: &str) -> (r: bool)
    ensures
        r == is_redirect_op(t@),
{
    proof {
        reveal_strlit(">");
        reveal_strlit("1>");
        assert(">"@ =~= seq!['>']);
        assert("1>"@ =~= seq!['1', '>']);
    }
    same_text(t, ">") || same_text(t, "1>")
}

/// A command line taken apart: its name, how it is carried out, its
/// arguments and where its output goes.
pub struct ShellCommand {
    pub name: String,
    pub args: Vec<String>,
    pub kind: CommandKind,
    pub redirect: Option<String>,
}

impl ShellCommand {
    /// Takes apart the tokens of a non-empty command line.
    pub fn from_tokens(tokens: &Vec<String>) -> (c: ShellCommand)
        requires
            tokens@.len() > 0,
        ensures
            c.name@ == tokens@[0]@,
            c.kind == kind_of(tokens@[0]@),
            strings_view(c.args@) == redirect_split(strings_view(tokens@).skip(1)).0,
            opt_view(c.redirect) == redirect_split(strings_view(tokens@).skip(1)).1,
    {
        let ghost a = strings_view(tokens@).skip(1);
        let name = tokens[0].clone();
        let kind = match Builtin::from_name(name.as_str()) {
            Some(b) => CommandKind::Builtin(b),
            None => CommandKind::External,
        };
        let n = tokens.len();
        let mut args: Vec<String> = Vec::new();
        let mut i: usize = 1;
        let mut found = false;
        while i < n && !found
            invariant
                n == tokens@.len(),
                a == strings_view(tokens@).skip(1),
                1 <= i <= n,
                found ==> i < n && is_redirect_op(a[i - 1]),
                first_op_from(a, i - 1) == first_op_from(a, 0),
                strings_view(args@) == a.take(i - 1),
            decreases n - i + (if found { 0int } else { 1int }),
        {
            assert(a[i - 1] == tokens@[i as int]@);
            if redirect_op(tokens[i].as_str()) {
                found = true;
            } else {
                let ghost before = strings_view(args@);
                args.push(tokens[i].clone());
                assert(strings_view(args@) =~= before.push(a[i - 1]));
                assert(a.take(i as int) =~= a.take(i - 1).push(a[i - 1]));
                i = i + 1;
            }
        }
        if found {
            assert(a.last() == tokens@[n - 1]@);
            let target = tokens[n - 1].clone();
            ShellCommand { name, args, kind, redirect: Some(target) }
        } else {
            assert(a.take(n - 1) =~= a);
            ShellCommand { name, args, kind, redirect: None }
        }
    }
}

} // verus!
