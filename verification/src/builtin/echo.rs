//! The `echo` builtin: joins its arguments with single spaces and a trailing
//! newline.

use vstd::prelude::*;

use crate::builtin::Errors;
use crate::text::{join_char, join_push, string_from_chars};

verus! {

/// echo's output: the arguments joined by single spaces, with a trailing
/// newline.
pub open spec fn echo_output(args: Seq<Seq<char>>) -> Seq<char> {
    join_char(args, ' ') + seq!['\n']
}

/// Run the echo builtin; the caller writes the returned text to the stage's
/// stdout target.
pub fn run(rest: &Vec<String>) -> (r: Result<String, Errors>)
    ensures
        r matches Ok(out) && out@ == echo_output(rest.deep_view()),
{
    let mut cs: Vec<char> = Vec::new();
    join_push(&mut cs, rest, ' ');
    cs.push('\n');
    proof {
        assert(cs@ =~= echo_output(rest.deep_view()));
    }
    Ok(string_from_chars(cs.as_slice()))
}

} // verus!
