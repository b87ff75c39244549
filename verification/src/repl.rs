//! The shell's per-session state and the pipeline executor's decision
//! functions.
//!
//! The executor threads a single "carry" value — the previous stage's
//! standard output — through the stage list. Its decisions are verified
//! here; the caller spawns the processes, opens the files and performs the
//! waits the decisions call for.

use vstd::prelude::*;

use crate::args;
use crate::builtin::history::History;
use crate::builtin::{Errors, ExitCode};
use crate::completion::{Entry, Type};
use crate::redirect::{spec_new_builtin, spec_new_program, Redirect, RedirectIO};

verus! {

/// The shell's per-session state: the last exit status, the current working
/// directory, and the command history.
pub struct State {
    pub last_exit_code: ExitCode,
    pub path: String,
    pub history: History,
}

/// The previous stage's standard output, as the executor carries it from
/// stage to stage.
#[derive(Debug)]
pub enum Carry {
    /// Nothing to hand on: the first stage, or output already persisted to a
    /// file.
    Empty,
    /// A spawned external process, still running, whose output feeds the
    /// next stage.
    Child,
    /// A builtin's buffered output.
    Buffer(String),
}

/// What the executor does for one stage.
#[derive(Debug)]
pub enum StepPlan {
    /// Wait for a running previous stage (aborting on its nonzero exit),
    /// then run the builtin against the planned targets; the previous
    /// stage's piped output is discarded, not fed to the builtin.
    RunBuiltin { wait_previous: bool, redirect: Redirect },
    /// Spawn the external program against the planned targets, its stdin fed
    /// from the carry.
    SpawnProgram { redirect: Redirect },
}

/// Decide one stage, given how its command name resolved: an unresolved name
/// aborts the whole pipeline; a builtin first waits for a running previous
/// stage and writes to a file or a buffer, never straight to the terminal;
/// an external program is spawned with its streams planned from its redirect
/// and its position in the pipeline.
pub fn run_commands_step(
    resolution: Option<&Entry>,
    command: &String,
    block_redirect: &Option<args::Redirect>,
    carry: &Carry,
    is_last: bool,
) -> (r: Result<StepPlan, Errors>)
    ensures
        resolution is None ==> (r matches Err(e) && (e matches Errors::CommandNotFound(s) && s@
            == command@)),
        (resolution matches Some(e) && e.value is Builtin) ==> (r matches Ok(p) && (
        p matches StepPlan::RunBuiltin { wait_previous, redirect } && wait_previous == (
        carry is Child) && redirect == spec_new_builtin(*block_redirect))),
        (resolution matches Some(e) && e.value is Program) ==> (r matches Ok(p) && (
        p matches StepPlan::SpawnProgram { redirect } && redirect == spec_new_program(
            *block_redirect,
            is_last,
        ))),
{
    match resolution {
        Option::None => Err(Errors::CommandNotFound(command.clone())),
        Option::Some(e) => match &e.value {
            Type::Builtin(_) => Ok(
                StepPlan::RunBuiltin {
                    wait_previous: match carry {
                        Carry::Child => true,
                        _ => false,
                    },
                    redirect: Redirect::new_builtin(block_redirect),
                },
            ),
            Type::Program(_) => Ok(
                StepPlan::SpawnProgram { redirect: Redirect::new_program(block_redirect, is_last) },
            ),
        },
    }
}

/// The carry a builtin stage leaves behind: nothing when its output went to
/// a file (it is already persisted), otherwise its buffered output, rewound
/// for the next stage or the final flush.
pub fn carry_after_builtin(redirect: &Redirect, output: String) -> (c: Carry)
    ensures
        redirect.stdout is File ==> c is Empty,
        !(redirect.stdout is File) ==> (c matches Carry::Buffer(s) && s == output),
{
    match &redirect.stdout {
        RedirectIO::File { .. } => Carry::Empty,
        _ => Carry::Buffer(output),
    }
}

/// What remains once every stage has been dispatched.
#[derive(Debug)]
pub enum FinalAction {
    /// Nothing: the last stage's output is already where it belongs.
    Done,
    /// Wait for the still-running last process and resolve its exit status.
    WaitChild,
    /// Write a builtin's buffered output to the terminal — the only place
    /// builtin-produced pipeline output ever reaches the user.
    Flush(String),
}

/// Decide what to do after the last stage, from the final carry.
pub fn run_commands_post(carry: Carry) -> (r: FinalAction)
    ensures
        carry is Empty ==> r is Done,
        carry is Child ==> r is WaitChild,
        carry matches Carry::Buffer(s) ==> (r matches FinalAction::Flush(t) && t == s),
{
    match carry {
        Carry::Empty => FinalAction::Done,
        Carry::Child => FinalAction::WaitChild,
        Carry::Buffer(s) => FinalAction::Flush(s),
    }
}

/// The outcome of a finished external process: success for exit code zero,
/// the code itself otherwise.
pub fn exit_code_result(code: i32) -> (r: Result<(), Errors>)
    ensures
        code == 0 ==> r is Ok,
        code != 0 ==> (r matches Err(e) && (e matches Errors::ExitCode(c) && c == code)),
{
    if code == 0 {
        Ok(())
    } else {
        Err(Errors::ExitCode(code))
    }
}

/// How one line's outcome is reported and recorded: success resets the last
/// exit status; a terminal nonzero exit records its code; a shutdown request
/// ends the loop with its code; an unresolved command is reported with the
/// whole input line; every other error is reported with its own text. The
/// returned pair is the shutdown code, if any, and the message to print, if
/// any.
pub fn repl_outcome(state: &mut State, outcome: &Result<(), Errors>, input: &str) -> (r: (
    Option<ExitCode>,
    Option<String>,
))
    ensures
        final(state).path == old(state).path,
        final(state).history == old(state).history,
        outcome is Ok ==> final(state).last_exit_code == 0 && r.0 is None && r.1 is None,
        outcome matches Err(e) ==> match e {
            Errors::CommandNotFound(_) => final(state).last_exit_code == old(
                state,
            ).last_exit_code && r.0 is None && (r.1 matches Some(m) && m@ == input@ + (
            ": command not found")@),
            Errors::ExitCode(v) => final(state).last_exit_code == v && r.0 is None && r.1 is None,
            Errors::Shutdown(v) => final(state).last_exit_code == old(state).last_exit_code && (
            r.0 matches Some(c) && c == v) && r.1 is None,
            _ => final(state).last_exit_code == old(state).last_exit_code && r.0 is None && (
            r.1 matches Some(m) && m@ == crate::builtin::errors_text(*e)),
        },
{
    match outcome {
        Ok(_) => {
            state.last_exit_code = 0;
            (Option::None, Option::None)
        },
        Err(e) => match e {
            Errors::CommandNotFound(_) => {
                let mut cs = crate::text::chars_of(input);
                crate::text::push_chars(&mut cs, ": command not found");
                (Option::None, Option::Some(crate::text::string_from_chars(cs.as_slice())))
            },
            Errors::ExitCode(v) => {
                state.last_exit_code = *v;
                (Option::None, Option::None)
            },
            Errors::Shutdown(v) => (Option::Some(*v), Option::None),
            other => (Option::None, Option::Some(other.message())),
        },
    }
}

} // verus!
