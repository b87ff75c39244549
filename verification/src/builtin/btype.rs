//! The `type` builtin: says whether a command name is a shell builtin, an
//! executable on the search path, or nothing.

use vstd::prelude::*;

use crate::builtin::Errors;
use crate::completion::{Completion, Entry, Type};
use crate::text::{chars_of, push_chars, string_from_chars};
use vstd::string::StringExecFns;
use vstd::utf8::encode_utf8;

verus! {

/// The line `type` prints for a resolved entry.
pub open spec fn inner_output(com: Seq<char>, e: Entry) -> Seq<char> {
    match e.value {
        Type::Builtin(_) => com + (" is a shell builtin\n")@,
        Type::Program(p) => com + (" is ")@ + p@ + ("\n")@,
    }
}

/// The line `type` prints for an unresolvable name.
pub open spec fn not_found_output(com: Seq<char>) -> Seq<char> {
    com + (" not found\n")@
}

/// Render the line for a name that resolved to `e`.
pub fn inner_run(com: &str, e: &Entry) -> (r: Result<String, Errors>)
    ensures
        r matches Ok(out) && out@ == inner_output(com@, *e),
{
    let mut cs = chars_of(com);
    match &e.value {
        Type::Builtin(_) => {
            push_chars(&mut cs, " is a shell builtin\n");
        },
        Type::Program(p) => {
            push_chars(&mut cs, " is ");
            push_chars(&mut cs, p.as_str());
            push_chars(&mut cs, "\n");
        },
    }
    Ok(string_from_chars(cs.as_slice()))
}

/// What running `type` with these arguments yields: the resolution line for
/// the first argument, or an error when there is none.
pub open spec fn type_outcome(
    c: Completion,
    rest: Seq<Seq<char>>,
    r: Result<String, Errors>,
) -> bool {
    if rest.len() == 0 {
        r matches Err(e) && (e matches Errors::MissingArgument(s) && s@ == "type"@)
    } else if c.contains_name(encode_utf8(rest[0])) {
        r matches Ok(out) && out@ == inner_output(rest[0], c.entry_for(encode_utf8(rest[0])))
    } else {
        r matches Ok(out) && out@ == not_found_output(rest[0])
    }
}

/// Run the type builtin; the caller writes the returned text to the stage's
/// stdout target.
pub fn run(rest: &Vec<String>, completion: &Completion) -> (r: Result<String, Errors>)
    requires
        completion.wf(),
    ensures
        type_outcome(*completion, rest.deep_view(), r),
{
    if rest.len() == 0 {
        return Err(Errors::MissingArgument(String::from_str("type")));
    }
    let com = &rest[0];
    match completion.matches_exact(com.as_str()) {
        None => {
            let mut cs = chars_of(com.as_str());
            push_chars(&mut cs, " not found\n");
            Ok(string_from_chars(cs.as_slice()))
        },
        Some(e) => inner_run(com.as_str(), e),
    }
}

} // verus!
