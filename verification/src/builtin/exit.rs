//! The `exit` builtin: asks the shell to shut down with the given code.

use vstd::prelude::*;

use crate::builtin::Errors;
use crate::text::{parse_i32, parse_i32_spec};
use vstd::string::StringExecFns;

verus! {

/// What running `exit` with these arguments yields. It never returns
/// normally: a valid code asks for shutdown, a missing argument or one that
/// is not an integer is reported as such.
pub open spec fn exit_outcome(rest: Seq<Seq<char>>, e: Errors) -> bool {
    if rest.len() == 0 {
        e matches Errors::MissingArgument(s) && s@ == "exit"@
    } else {
        match parse_i32_spec(rest[0]) {
            Some(c) => e matches Errors::Shutdown(c2) && c2 == c,
            None => e matches Errors::IncorrectArgumentType(a, b) && a@ == rest[0] && b@
                == "integer"@,
        }
    }
}

/// Run the exit builtin.
pub fn run(rest: &Vec<String>) -> (r: Result<(), Errors>)
    ensures
        r matches Err(e) && exit_outcome(rest.deep_view(), e),
{
    if rest.len() == 0 {
        return Err(Errors::MissingArgument(String::from_str("exit")));
    }
    let code = &rest[0];
    match parse_i32(code.as_str()) {
        Some(c) => Err(Errors::Shutdown(c)),
        None => Err(
            Errors::IncorrectArgumentType(code.clone(), String::from_str("integer")),
        ),
    }
}

} // verus!
