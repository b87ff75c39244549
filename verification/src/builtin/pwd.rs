//! The `pwd` builtin: prints the current working directory.

use vstd::prelude::*;

use crate::builtin::Errors;
use crate::repl::State;
use crate::text::{chars_of, string_from_chars};

verus! {

/// pwd's output: the working directory and a newline.
pub open spec fn pwd_output(path: Seq<char>) -> Seq<char> {
    path + seq!['\n']
}

/// Run the pwd builtin; the caller writes the returned text to the stage's
/// stdout target.
pub fn run(state: &State) -> (r: Result<String, Errors>)
    ensures
        r matches Ok(out) && out@ == pwd_output(state.path@),
{
    let mut cs = chars_of(state.path.as_str());
    cs.push('\n');
    proof {
        assert(cs@ =~= pwd_output(state.path@));
    }
    Ok(string_from_chars(cs.as_slice()))
}

} // verus!
