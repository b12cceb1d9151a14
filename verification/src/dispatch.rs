//! The command table: which handler a command name stands for.

use vstd::prelude::*;
use vstd::string::StringExecFns;
use crate::command::texts;
use crate::numbers::parse_i32;
use crate::numbers::parsed_i32;
use crate::text::same_text;

verus! {

/// Status of a command whose name the table does not hold.
pub const STATUS_NOT_FOUND: i32 = 127;

/// Status of `exit` with an argument that is no number.
pub const STATUS_ILLEGAL_NUMBER: i32 = 2;

/// The built-in commands that are carried out outside the interpreter's core.
#[derive(Debug, PartialEq, Eq, Clone, Copy, Structural)]
pub enum Builtin {
    Echo,
    Pwd,
    Cd,
    Mv,
    Cp,
    Ls,
    Cat,
    Rm,
    Mkdir,
    History,
}

/// What a command asks for.
#[derive(Debug, PartialEq, Eq, Clone, Copy, Structural)]
pub enum Dispatch {
    /// Carry out a built-in command.
    Run(Builtin),
    /// Leave the interpreter with this code.
    Exit(i32),
    /// `exit` with an argument that is no number.
    IllegalNumber,
    /// Clear the terminal.
    Clear,
    /// The table holds no such name.
    NotFound,
}

/// The built-in command that `name` stands for, if any.
pub open spec fn builtin_named(name: Seq<char>) -> Option<Builtin> {
    if name == "echo"@ {
        Some(Builtin::Echo)
    } else if name == "pwd"@ {
        Some(Builtin::Pwd)
    } else if name == "cd"@ {
        Some(Builtin::Cd)
    } else if name == "mv"@ {
        Some(Builtin::Mv)
    } else if name == "cp"@ {
        Some(Builtin::Cp)
    } else if name == "ls"@ {
        Some(Builtin::Ls)
    } else if name == "cat"@ {
        Some(Builtin::Cat)
    } else if name == "rm"@ {
        Some(Builtin::Rm)
    } else if name == "mkdir"@ {
        Some(Builtin::Mkdir)
    } else if name == "history"@ {
        Some(Builtin::History)
    } else {
        None
    }
}

/// What `exit` with the arguments `args` asks for: without an argument the
/// interpreter leaves with the last status; with a first argument that is a
/// number it leaves with that number; any other first argument is illegal.
pub open spec fn exit_request(args: Seq<Seq<char>>, last_status: i32) -> Dispatch {
    if args.len() == 0 {
        Dispatch::Exit(last_status)
    } else {
        match parsed_i32(args[0]) {
            Some(code) => Dispatch::Exit(code),
            None => Dispatch::IllegalNumber,
        }
    }
}

/// What the command `name` with the arguments `args` asks for.
pub open spec fn dispatch_of(name: Seq<char>, args: Seq<Seq<char>>, last_status: i32) -> Dispatch {
    match builtin_named(name) {
        Some(builtin) => Dispatch::Run(builtin),
        None => if name == "exit"@ {
            exit_request(args, last_status)
        } else if name == "clear"@ {
            Dispatch::Clear
        } else {
            Dispatch::NotFound
        },
    }
}

/// Looks `name` up among the built-in commands.
pub fn find_builtin(name: &str) -> (found: Option<Builtin>)
    ensures
        found == builtin_named(name@),
{
    if same_text(name, "echo") {
        Some(Builtin::Echo)
    } else if same_text(name, "pwd") {
        Some(Builtin::Pwd)
    } else if same_text(name, "cd") {
        Some(Builtin::Cd)
    } else if same_text(name, "mv") {
        Some(Builtin::Mv)
    } else if same_text(name, "cp") {
        Some(Builtin::Cp)
    } else if same_text(name, "ls") {
        Some(Builtin::Ls)
    } else if same_text(name, "cat") {
        Some(Builtin::Cat)
    } else if same_text(name, "rm") {
        Some(Builtin::Rm)
    } else if same_text(name, "mkdir") {
        Some(Builtin::Mkdir)
    } else if same_text(name, "history") {
        Some(Builtin::History)
    } else {
        None
    }
}

/// Decides what the command `name` with the arguments `args` asks for, given
/// the status of the command before it.
pub fn dispatch(name: &str, args: &Vec<String>, last_status: i32) -> (dispatch: Dispatch)
    ensures
        dispatch == dispatch_of(name@, texts(args@), last_status),
{
    match find_builtin(name) {
        Some(builtin) => Dispatch::Run(builtin),
        None => {
            if same_text(name, "exit") {
                if args.len() == 0 {
                    Dispatch::Exit(last_status)
                } else {
                    match parse_i32(args[0].as_str()) {
                        Some(code) => Dispatch::Exit(code),
                        None => Dispatch::IllegalNumber,
                    }
                }
            } else if same_text(name, "clear") {
                Dispatch::Clear
            } else {
                Dispatch::NotFound
            }
        },
    }
}

/// The text that reports an unknown command.
pub fn not_found_message(name: &str) -> (message: String)
    ensures
        message@ == "Command <"@ + name@ + "\x1b[31m> not found"@,
{
    let mut message = String::from_str("Command <");
    message.append(name);
    message.append("\x1b[31m> not found");
    message
}

} // verus!
