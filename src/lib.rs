//! A small command interpreter: a quote-aware tokenizer, an executable
//! registry, a working-directory path resolver and a command dispatcher.

pub mod command;
pub mod lexer;
pub mod number;
pub mod path;
pub mod registry;
pub mod shell;
pub mod text;

pub use command::{Builtin, CommandKind, ShellCommand};
pub use lexer::parse_command;
pub use number::{parse_i32, ParseFailure};
pub use path::resolve_path;
pub use registry::Registry;
pub use shell::{eval, eval_builtin, eval_executable, finish_run, format_child_error, Action, Context};

