//! The builtin commands: their error type, the registry of supported
//! builtins, and the dispatcher that runs one builtin against the shell
//! state.
//!
//! A builtin computes the text it writes to its stdout target and, where its
//! work needs the file system (changing directory, reading or writing a
//! history file), an [`Action`] describing that work for the caller to
//! perform.

pub mod btype;
pub mod cd;
pub mod echo;
pub mod history;
pub mod exit;
pub mod pwd;

use vstd::prelude::*;

use crate::args;
use crate::completion::Completion;
use crate::repl::State;

verus! {

/// The exit status of a process or of the shell itself.
pub type ExitCode = i32;

/// A dispatch- or run-time error of the shell.
#[derive(Clone, Debug)]
pub enum Errors {
    /// A terminal external stage finished with this nonzero code.
    ExitCode(ExitCode),
    /// The `exit` builtin asked the whole shell to stop with this code.
    Shutdown(ExitCode),
    /// A stage's command name resolved to nothing.
    CommandNotFound(String),
    /// A builtin was called without a required argument.
    MissingArgument(String),
    /// A builtin argument (first field) was not of the kind it should be
    /// (second field).
    IncorrectArgumentType(String, String),
    /// An operating-system error, rendered as text.
    IoError(String),
    /// The input line could not be parsed.
    ParseError(args::Error),
}

/// The text reported for each shell error.
pub open spec fn errors_text(e: Errors) -> Seq<char> {
    match e {
        Errors::ExitCode(c) => ("exit code called ")@ + crate::text::int_str(c as int),
        Errors::Shutdown(c) => ("shutdown code called ")@ + crate::text::int_str(c as int),
        Errors::CommandNotFound(s) => s@ + (": command not found")@,
        Errors::MissingArgument(s) => ("The command ")@ + s@ + (" is missing an argument")@,
        Errors::IncorrectArgumentType(a, b) => ("The incorrect argument ")@ + a@ + (" should be a ")@
            + b@,
        Errors::IoError(s) => ("Io Error <")@ + s@ + (">")@,
        Errors::ParseError(pe) => ("Parse Error ")@ + crate::args::error_text(pe),
    }
}

impl Errors {
    /// The error's report text.
    pub fn message(&self) -> (r: String)
        ensures
            r@ == errors_text(*self),
    {
        let mut cs: Vec<char> = Vec::new();
        match self {
            Errors::ExitCode(c) => {
                crate::text::push_chars(&mut cs, "exit code called ");
                let num = crate::text::i32_to_string(*c);
                crate::text::push_chars(&mut cs, num.as_str());
            },
            Errors::Shutdown(c) => {
                crate::text::push_chars(&mut cs, "shutdown code called ");
                let num = crate::text::i32_to_string(*c);
                crate::text::push_chars(&mut cs, num.as_str());
            },
            Errors::CommandNotFound(s) => {
                crate::text::push_chars(&mut cs, s.as_str());
                crate::text::push_chars(&mut cs, ": command not found");
            },
            Errors::MissingArgument(s) => {
                crate::text::push_chars(&mut cs, "The command ");
                crate::text::push_chars(&mut cs, s.as_str());
                crate::text::push_chars(&mut cs, " is missing an argument");
            },
            Errors::IncorrectArgumentType(a, b) => {
                crate::text::push_chars(&mut cs, "The incorrect argument ");
                crate::text::push_chars(&mut cs, a.as_str());
                crate::text::push_chars(&mut cs, " should be a ");
                crate::text::push_chars(&mut cs, b.as_str());
            },
            Errors::IoError(s) => {
                crate::text::push_chars(&mut cs, "Io Error <");
                crate::text::push_chars(&mut cs, s.as_str());
                crate::text::push_chars(&mut cs, ">");
            },
            Errors::ParseError(pe) => {
                crate::text::push_chars(&mut cs, "Parse Error ");
                let inner = pe.message();
                crate::text::push_chars(&mut cs, inner.as_str());
            },
        }
        crate::text::string_from_chars(cs.as_slice())
    }
}

/// The commands implemented in-process.
#[derive(Debug, Clone, Copy, PartialEq, Eq, Structural)]
pub enum Builtins {
    Exit,
    Echo,
    Type,
    Pwd,
    Cd,
    History,
}

impl Builtins {
    /// Every supported builtin, with the command name that invokes it.
    pub fn supported() -> (r: [(Builtins, &'static str); 6])
        ensures
            r@.len() == 6,
            r@[0].0 == Builtins::Exit && r@[0].1@ == "exit"@,
            r@[1].0 == Builtins::Echo && r@[1].1@ == "echo"@,
            r@[2].0 == Builtins::Type && r@[2].1@ == "type"@,
            r@[3].0 == Builtins::Pwd && r@[3].1@ == "pwd"@,
            r@[4].0 == Builtins::Cd && r@[4].1@ == "cd"@,
            r@[5].0 == Builtins::History && r@[5].1@ == "history"@,
    {
        [
            (Builtins::Exit, "exit"),
            (Builtins::Echo, "echo"),
            (Builtins::Type, "type"),
            (Builtins::Pwd, "pwd"),
            (Builtins::Cd, "cd"),
            (Builtins::History, "history"),
        ]
    }
}

/// File-system work a builtin asks its caller to perform, alongside the text
/// it produced.
#[derive(Clone, Debug)]
pub enum Action {
    /// No work beyond writing the returned text.
    Nothing,
    /// Change the working directory to this target, if it is a directory.
    ChangeDir(String),
    /// Read the history file at this path and merge its lines in.
    HistoryRead(String),
    /// Replace the file at this path with the given contents.
    HistoryWrite { path: String, contents: String },
    /// Append the history entries from index `start` on to this file.
    HistoryAppend { path: String, start: usize },
}

/// Run one builtin against the shell state. The returned text goes to the
/// stage's stdout target; the returned action is the file-system work the
/// builtin asks its caller to perform. Only `history` changes the state, and
/// only its history part; `cd` asks for the change through its action.
pub fn run(
    state: &mut State,
    completion: &Completion,
    com: Builtins,
    rest: &Vec<String>,
) -> (r: Result<(String, Action), Errors>)
    requires
        old(state).history.wf(),
        completion.wf(),
        com is Cd ==> rest.deep_view().len() >= 1,
    ensures
        final(state).history.wf(),
        final(state).path == old(state).path,
        final(state).last_exit_code == old(state).last_exit_code,
        !(com is History) ==> final(state).history == old(state).history,
        com is Exit ==> (r matches Err(e) && exit::exit_outcome(rest.deep_view(), e)),
        com is Echo ==> (r matches Ok(p) && p.0@ == echo::echo_output(rest.deep_view())
            && p.1 is Nothing),
        com is Type ==> (match r {
            Ok(p) => p.1 is Nothing && btype::type_outcome(
                *completion,
                rest.deep_view(),
                Ok::<String, Errors>(p.0),
            ),
            Err(e) => btype::type_outcome(*completion, rest.deep_view(), Err::<String, Errors>(e)),
        }),
        com is Pwd ==> (r matches Ok(p) && p.0@ == pwd::pwd_output(old(state).path@)
            && p.1 is Nothing),
        com is Cd ==> (r matches Ok(p) && p.0@.len() == 0 && (
        p.1 matches Action::ChangeDir(t) && t@ == rest.deep_view()[0])),
        com is History ==> history::history_outcome(
            old(state).history,
            final(state).history,
            rest.deep_view(),
            r,
        ),
{
    match com {
        Builtins::Exit => match exit::run(rest) {
            Err(e) => Err(e),
            Ok(_) => vstd::pervasive::unreached(),
        },
        Builtins::Echo => match echo::run(rest) {
            Ok(text) => Ok((text, Action::Nothing)),
            Err(_) => vstd::pervasive::unreached(),
        },
        Builtins::Type => match btype::run(rest, completion) {
            Ok(text) => Ok((text, Action::Nothing)),
            Err(e) => Err(e),
        },
        Builtins::Pwd => match pwd::run(&*state) {
            Ok(text) => Ok((text, Action::Nothing)),
            Err(_) => vstd::pervasive::unreached(),
        },
        Builtins::Cd => cd::run(rest),
        Builtins::History => history::run(&mut state.history, rest),
    }
}

} // verus!
