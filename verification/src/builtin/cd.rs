//! The `cd` builtin: resolves the target directory path; the caller checks
//! the file system and either changes the working directory or reports the
//! failure.

use vstd::prelude::*;

use crate::builtin::{Action, Errors};
use crate::text::{chars_of, push_chars, string_from_chars};

verus! {

/// The argument with its leading tilde characters removed.
pub open spec fn strip_tildes(s: Seq<char>) -> Seq<char>
    decreases s.len(),
{
    if s.len() > 0 && s[0] == '~' {
        strip_tildes(s.skip(1))
    } else {
        s
    }
}

/// One path joined below another: an absolute right side stands alone,
/// anything else goes under the base with a separator.
pub open spec fn path_join(base: Seq<char>, rel: Seq<char>) -> Seq<char> {
    if rel.len() > 0 && rel[0] == '/' {
        rel
    } else {
        base + seq!['/'] + rel
    }
}

/// The directory `cd` moves to: a tilde argument is resolved below the home
/// directory, an absolute argument stands alone, anything else is resolved
/// below the working directory.
pub open spec fn target_path_spec(cwd: Seq<char>, home: Seq<char>, arg: Seq<char>) -> Seq<char>
    recommends
        arg.len() > 0,
{
    if arg[0] == '~' {
        path_join(home, strip_tildes(arg))
    } else if arg[0] == '/' {
        arg
    } else {
        path_join(cwd, arg)
    }
}

/// Stripping the leading tildes is the same as skipping past them.
proof fn lemma_strip_tildes(s: Seq<char>, k: int)
    requires
        0 <= k <= s.len(),
        forall|j: int| 0 <= j < k ==> s[j] == '~',
        k == s.len() || s[k as int] != '~',
    ensures
        strip_tildes(s) == s.skip(k),
    decreases k,
{
    if k == 0 {
        assert(s.skip(0) =~= s);
    } else {
        assert(s[0] == '~');
        let t = s.skip(1);
        lemma_strip_tildes(t, k - 1);
        assert(t.skip(k - 1) =~= s.skip(k));
    }
}

/// Build the joined path.
fn join_exec(base: &str, rel: &[char]) -> (r: String)
    ensures
        r@ == path_join(base@, rel@),
{
    if rel.len() > 0 && rel[0] == '/' {
        string_from_chars(rel)
    } else {
        let mut cs = chars_of(base);
        cs.push('/');
        let mut i: usize = 0;
        while i < rel.len()
            invariant
                i <= rel@.len(),
                cs@ == base@ + seq!['/'] + rel@.subrange(0, i as int),
            decreases rel@.len() - i,
        {
            cs.push(rel[i]);
            i = i + 1;
            proof {
                assert(cs@ =~= base@ + seq!['/'] + rel@.subrange(0, i as int));
            }
        }
        proof {
            assert(cs@ =~= path_join(base@, rel@));
        }
        string_from_chars(cs.as_slice())
    }
}

/// Resolve the directory `cd` should move to.
pub fn target_path(cwd: &str, home: &str, arg: &str) -> (r: String)
    requires
        arg@.len() > 0,
    ensures
        r@ == target_path_spec(cwd@, home@, arg@),
{
    let cs = chars_of(arg);
    if cs[0] == '~' {
        let n = cs.len();
        let mut k: usize = 0;
        while k < n && cs[k] == '~'
            invariant
                n == cs@.len(),
                k <= n,
                forall|j: int| 0 <= j < k ==> cs@[j] == '~',
            decreases n - k,
        {
            k = k + 1;
        }
        proof {
            lemma_strip_tildes(cs@, k as int);
        }
        let rel = vstd::slice::slice_subrange(cs.as_slice(), k, n);
        proof {
            assert(rel@ =~= strip_tildes(arg@));
        }
        join_exec(home, rel)
    } else if cs[0] == '/' {
        let mut cs2 = chars_of(arg);
        string_from_chars(cs2.as_slice())
    } else {
        join_exec(cwd, cs.as_slice())
    }
}

/// The message `cd` prints when the target is not a directory.
pub open spec fn no_such_dir(path: Seq<char>) -> Seq<char> {
    ("cd: ")@ + path + (": No such file or directory\n")@
}

/// Render the message for a target that is not a directory.
pub fn no_such_dir_message(path: &str) -> (r: String)
    ensures
        r@ == no_such_dir(path@),
{
    let mut cs: Vec<char> = Vec::new();
    push_chars(&mut cs, "cd: ");
    push_chars(&mut cs, path);
    push_chars(&mut cs, ": No such file or directory\n");
    string_from_chars(cs.as_slice())
}

/// Run the cd builtin: hand the caller the directory-change request; the
/// caller resolves the target against the home and working directories and
/// the file system.
pub fn run(rest: &Vec<String>) -> (r: Result<(String, Action), Errors>)
    requires
        rest.deep_view().len() >= 1,
    ensures
        r matches Ok(p) && p.0@.len() == 0 && (p.1 matches Action::ChangeDir(t) && t@
            == rest.deep_view()[0]),
{
    Ok((String::new(), Action::ChangeDir((&rest[0]).clone())))
}

} // verus!
