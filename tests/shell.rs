use tinysh::{
    eval, eval_builtin, eval_executable, finish_run, format_child_error, parse_i32, Action,
    Builtin, CommandKind, Context, ParseFailure, Registry, ShellCommand,
};

fn session() -> Context {
    let mut c = Context::new("/root".to_string(), "/home/u".to_string());
    c.registry.insert("ls".to_string(), "/bin/ls".to_string());
    c
}

fn print(s: &str) -> Action {
    Action::Print(s.to_string())
}

#[test]
fn type_reports_builtins_and_unknown_names() {
    let mut c = session();
    assert_eq!(eval("type cd", &mut c), print("cd is a shell builtin"));
    assert_eq!(
        eval("type nonexistent_cmd_xyz", &mut c),
        print("nonexistent_cmd_xyz: not found")
    );
    assert_eq!(eval("type ls", &mut c), print("ls is /bin/ls"));
    assert_eq!(eval("type", &mut c), Action::Nothing);
}

fn written(path: &str, text: &str) -> Action {
    Action::WriteText {
        path: path.to_string(),
        text: text.to_string(),
    }
}

#[test]
fn echo_into_file_writes_text_and_newline() {
    let mut c = session();
    let r = eval("echo hello > /tmp/out.txt", &mut c);
    assert_eq!(r, written("/tmp/out.txt", "hello\n"));
    assert!(!matches!(r, Action::Print(_)));
    assert_eq!(
        eval("echo hello 1> /tmp/out.txt", &mut c),
        written("/tmp/out.txt", "hello\n")
    );
}

#[test]
fn echo_prints_joined_arguments_without_trailing_space() {
    let mut c = session();
    assert_eq!(eval("echo a   b", &mut c), print("a b"));
    assert_eq!(eval("echo \"a  \"", &mut c), print("a"));
    assert_eq!(eval("echo", &mut c), print(""));
}

#[test]
fn unknown_command_is_reported_and_session_goes_on() {
    let mut c = session();
    assert_eq!(
        eval("nonexistent_cmd_xyz -v", &mut c),
        print("nonexistent_cmd_xyz: command not found")
    );
    assert_eq!(c.cwd, "/home/u");
    assert_eq!(eval("pwd", &mut c), print("/home/u"));
}

#[test]
fn registered_command_is_run_with_its_arguments() {
    let mut c = session();
    assert_eq!(
        eval("ls -l /tmp", &mut c),
        Action::Run {
            program: "/bin/ls".to_string(),
            args: vec!["-l".to_string(), "/tmp".to_string()],
            redirect: None,
        }
    );
    assert_eq!(
        eval("ls -l > listing", &mut c),
        Action::Run {
            program: "/bin/ls".to_string(),
            args: vec!["-l".to_string()],
            redirect: Some("listing".to_string()),
        }
    );
}

#[test]
fn exit_with_bad_number_is_reported() {
    let mut c = session();
    assert_eq!(
        eval("exit notanumber", &mut c),
        Action::Report("invalid digit found in string".to_string())
    );
}

#[test]
fn exit_with_number_ends_with_that_status() {
    let mut c = session();
    assert_eq!(eval("exit 3", &mut c), Action::Exit(3));
    assert_eq!(eval("exit", &mut c), Action::Exit(0));
    assert_eq!(eval("exit -7", &mut c), Action::Exit(-7));
    assert_eq!(eval("exit 4 5", &mut c), Action::Exit(4));
    assert_eq!(
        eval("exit 99999999999", &mut c),
        Action::Report("number too large to fit in target type".to_string())
    );
}

#[test]
fn parse_i32_follows_the_decimal_grammar() {
    assert_eq!(parse_i32("42"), Ok(42));
    assert_eq!(parse_i32("+42"), Ok(42));
    assert_eq!(parse_i32("-2147483648"), Ok(i32::MIN));
    assert_eq!(parse_i32("2147483647"), Ok(i32::MAX));
    assert_eq!(parse_i32("2147483648"), Err(ParseFailure::PosOverflow));
    assert_eq!(parse_i32("-2147483649"), Err(ParseFailure::NegOverflow));
    assert_eq!(parse_i32(""), Err(ParseFailure::Empty));
    assert_eq!(parse_i32("-"), Err(ParseFailure::InvalidDigit));
    assert_eq!(parse_i32("1x"), Err(ParseFailure::InvalidDigit));
    assert_eq!(parse_i32("99999999999x"), Err(ParseFailure::PosOverflow));
}

#[test]
fn failure_messages() {
    assert_eq!(
        ParseFailure::Empty.describe(),
        "cannot parse integer from empty string"
    );
    assert_eq!(
        ParseFailure::NegOverflow.describe(),
        "number too small to fit in target type"
    );
}

#[test]
fn pwd_drops_one_trailing_separator() {
    let mut c = Context::new("/root".to_string(), "/tmp/".to_string());
    assert_eq!(eval("pwd", &mut c), print("/tmp"));
}

#[test]
fn cd_without_arguments_goes_home() {
    let mut c = session();
    assert_eq!(eval("cd", &mut c), Action::Enter("/root".to_string()));
    assert_eq!(c.cwd, "/root");
}

#[test]
fn cd_with_one_argument_asks_for_a_check() {
    let mut c = session();
    assert_eq!(
        eval("cd ../v", &mut c),
        Action::Check {
            input: "../v".to_string(),
            target: "/home/v".to_string(),
        }
    );
    assert_eq!(c.cwd, "/home/u");
}

#[test]
fn cd_with_two_arguments_prints_usage() {
    let mut c = session();
    assert_eq!(
        eval("cd a b", &mut c),
        print("cd: please provide only one directory")
    );
    assert_eq!(c.cwd, "/home/u");
}

#[test]
fn failed_cd_keeps_working_directory() {
    let mut c = session();
    let r = c.finish_cd("nowhere", None, false);
    assert_eq!(
        r,
        Action::Report("cd: nowhere: No such directory".to_string())
    );
    assert_eq!(c.cwd, "/home/u");
    let r = c.finish_cd("passwd", Some("/etc/passwd".to_string()), false);
    assert_eq!(
        r,
        Action::Report("cd: /etc/passwd: No such directory".to_string())
    );
    assert_eq!(c.cwd, "/home/u");
}

#[test]
fn successful_cd_moves_working_directory() {
    let mut c = session();
    let r = c.finish_cd("/tmp", Some("/tmp".to_string()), true);
    assert_eq!(r, Action::Enter("/tmp".to_string()));
    assert_eq!(c.cwd, "/tmp");
}

#[test]
fn blank_line_does_nothing() {
    let mut c = session();
    assert_eq!(eval("   \n", &mut c), Action::Nothing);
}

#[test]
fn child_error_is_reformatted() {
    assert_eq!(
        format_child_error("/bin/ls: cannot access 'x': No such file or directory\n"),
        "ls: cannot access 'x': No such file or directory"
    );
    assert_eq!(format_child_error("cat: y: denied  "), "cat: y: denied");
    assert_eq!(format_child_error("no colon here\n"), "no colon here");
}

#[test]
fn finished_program_output_goes_where_asked() {
    assert_eq!(
        finish_run(None, true, b"hi\n".to_vec(), ""),
        vec![Action::Emit(b"hi\n".to_vec())]
    );
    assert_eq!(
        finish_run(Some("f".to_string()), true, b"hi\n".to_vec(), ""),
        vec![Action::WriteBytes {
            path: "f".to_string(),
            bytes: b"hi\n".to_vec()
        }]
    );
    assert_eq!(
        finish_run(None, false, Vec::new(), "/usr/bin/cat: z: missing\n"),
        vec![Action::Report("cat: z: missing".to_string())]
    );
    assert_eq!(
        finish_run(Some("f".to_string()), false, b"part".to_vec(), "x: bad"),
        vec![
            Action::WriteBytes {
                path: "f".to_string(),
                bytes: b"part".to_vec()
            },
            Action::Report("x: bad".to_string())
        ]
    );
}

#[test]
fn registry_keeps_the_last_path_for_a_name() {
    let mut r = Registry::new();
    r.insert("ls".to_string(), "/bin/ls".to_string());
    r.refresh(vec![
        ("cat".to_string(), "/bin/cat".to_string()),
        ("ls".to_string(), "/usr/bin/ls".to_string()),
    ]);
    assert_eq!(r.lookup("ls").map(|s| s.as_str()), Some("/usr/bin/ls"));
    assert_eq!(r.lookup("cat").map(|s| s.as_str()), Some("/bin/cat"));
    assert_eq!(r.lookup("dog"), None);
}

#[test]
fn commands_are_classified_and_split() {
    let toks = vec![
        "echo".to_string(),
        "a".to_string(),
        ">".to_string(),
        "out".to_string(),
    ];
    let c = ShellCommand::from_tokens(&toks);
    assert_eq!(c.name, "echo");
    assert_eq!(c.kind, CommandKind::Builtin(Builtin::Echo));
    assert_eq!(c.args, vec!["a".to_string()]);
    assert_eq!(c.redirect, Some("out".to_string()));
    let toks = vec!["grep".to_string(), "x".to_string()];
    let c = ShellCommand::from_tokens(&toks);
    assert_eq!(c.kind, CommandKind::External);
    assert_eq!(c.redirect, None);
    assert_eq!(Builtin::from_name("pwd"), Some(Builtin::Pwd));
    assert_eq!(Builtin::from_name("pwdx"), None);
}

#[test]
fn builtins_and_executables_can_be_called_directly() {
    let mut c = session();
    let args = vec!["x".to_string(), "y".to_string()];
    assert_eq!(eval_builtin(Builtin::Echo, &args, None, &mut c), print("x y"));
    assert_eq!(
        eval_executable("nope", Vec::new(), None, &c),
        print("nope: command not found")
    );
}

#[test]
fn missing_directory_is_reported_by_its_argument() {
    let mut c = session();
    let (input, target) = match eval("cd nowhere", &mut c) {
        Action::Check { input, target } => (input, target),
        other => panic!("unexpected {other:?}"),
    };
    assert_eq!(input, "nowhere");
    assert_eq!(target, "/home/u/nowhere");
    assert_eq!(
        c.finish_cd(&input, None, false),
        Action::Report("cd: nowhere: No such directory".to_string())
    );
    assert_eq!(c.cwd, "/home/u");
}

#[test]
fn child_error_source_skips_dot_components() {
    assert_eq!(format_child_error("foo.txt/.:e"), "foo.txt:e");
    assert_eq!(format_child_error("/usr/bin/prog/./: failed \n"), "prog: failed");
    assert_eq!(format_child_error("a/./b: x"), "b: x");
}

#[test]
fn child_error_source_without_file_name_is_kept() {
    assert_eq!(format_child_error("/: bad"), "/: bad");
    assert_eq!(format_child_error(": bad"), ": bad");
    assert_eq!(format_child_error("dir/..: bad"), "dir/..: bad");
    assert_eq!(format_child_error(".: bad"), ".: bad");
}

#[test]
fn search_path_is_scanned_again_only_once() {
    let mut c = session();
    assert!(c.take_refresh());
    assert!(!c.take_refresh());
    assert!(!c.take_refresh());
}
