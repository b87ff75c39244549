//! The `history` builtin and the in-memory command history.
//!
//! The history itself lives in memory; reading and writing history files is
//! the caller's work, requested through [`Action`](crate::builtin::Action)
//! values and completed through [`History::read_history`] and
//! [`History::append_text`].

use vstd::prelude::*;

use crate::builtin::{Action, Errors};
use crate::text::{
    chars_of, dec_str, join_char, join_push, parse_usize, parse_usize_spec, push_chars, push_dec,
    string_from_chars,
};
use vstd::string::StringExecFns;

verus! {

/// The in-memory command history: the lines entered so far, how many of them
/// an append has already persisted, and, where the history was loaded from a
/// file, that file and how many lines came from it.
#[derive(Debug)]
pub struct History {
    pub history: Vec<String>,
    appended: usize,
    org: Option<OrgFile>,
}

#[derive(Debug)]
struct OrgFile {
    path: String,
    read_lines: usize,
}

/// The text `history` prints from entry `i` on: four spaces, the one-based
/// entry number, a space, the line, a newline.
pub open spec fn print_from(h: Seq<Seq<char>>, i: int) -> Seq<char>
    decreases h.len() - i,
{
    if i < 0 || i >= h.len() {
        Seq::empty()
    } else {
        seq![' ', ' ', ' ', ' '] + dec_str((i + 1) as nat) + seq![' '] + h[i] + seq!['\n']
            + print_from(h, i + 1)
    }
}

/// The text `history` prints when asked for `count` entries (all of them
/// when no count is given): the last `count` entries, each numbered.
pub open spec fn print_history_spec(h: Seq<Seq<char>>, count: Option<usize>) -> Seq<char> {
    let other = match count {
        Some(c) => c as int,
        None => h.len() as int,
    };
    let start = if h.len() >= other {
        h.len() - other
    } else {
        0
    };
    print_from(h, start)
}

/// The concatenation of the history entries from `i` on, each followed by a
/// newline.
pub open spec fn lines_concat(h: Seq<Seq<char>>, i: int) -> Seq<char>
    decreases h.len() - i,
{
    if i < 0 || i >= h.len() {
        Seq::empty()
    } else {
        h[i] + seq!['\n'] + lines_concat(h, i + 1)
    }
}

/// The new contents of a history file when the entries from `start` on are
/// appended: the existing text, given a trailing newline if it lacks one,
/// then each entry followed by a newline.
pub open spec fn append_text_spec(existing: Seq<char>, h: Seq<Seq<char>>, start: int) -> Seq<
    char,
> {
    let base = if existing.len() > 0 && existing.last() == '\n' {
        existing
    } else {
        existing + seq!['\n']
    };
    base + lines_concat(h, start)
}

impl History {
    /// The lines the history holds, as character sequences.
    pub closed spec fn lines(&self) -> Seq<Seq<char>> {
        self.history.deep_view()
    }

    /// The number of history lines a write or append has already persisted.
    pub closed spec fn appended_spec(&self) -> int {
        self.appended as int
    }

    /// The file the history was loaded from, with the number of lines read.
    pub closed spec fn origin_spec(&self) -> Option<(Seq<char>, int)> {
        match self.org {
            Some(o) => Some((o.path@, o.read_lines as int)),
            None => None,
        }
    }

    /// The persisted count never exceeds the number of lines held.
    pub closed spec fn wf(&self) -> bool {
        self.appended <= self.history@.len()
    }

    /// A fresh, empty history bound to no file.
    pub fn new() -> (r: Result<History, Errors>)
        ensures
            r matches Ok(h) && h.wf() && h.lines().len() == 0 && h.appended_spec() == 0
                && h.origin_spec() is None,
    {
        Ok(History { history: Vec::new(), appended: 0, org: None })
    }

    /// A history loaded from the file at `path`, whose lines the caller has
    /// already read.
    pub fn from_file(path: String, lines: Vec<String>) -> (r: Result<History, Errors>)
        ensures
            r matches Ok(h) && h.wf() && h.lines() == lines.deep_view() && h.appended_spec() == 0
                && h.origin_spec() == Some((path@, lines@.len() as int)),
    {
        let len = lines.len();
        Ok(
            History {
                history: lines,
                appended: 0,
                org: Some(OrgFile { path, read_lines: len }),
            },
        )
    }

    /// Render the numbered history listing.
    pub fn print_history(&self, count: Option<usize>) -> (r: String)
        ensures
            r@ == print_history_spec(self.lines(), count),
    {
        let ghost dv = self.history.deep_view();
        let n = self.history.len();
        let start: usize = match count {
            Some(c) => if n >= c {
                n - c
            } else {
                0
            },
            None => 0,
        };
        let mut cs: Vec<char> = Vec::new();
        let mut k: usize = start;
        proof {
            assert(cs@ + print_from(dv, start as int) =~= print_from(dv, start as int));
        }
        while k < n
            invariant
                n == self.history@.len(),
                dv == self.history.deep_view(),
                start <= k <= n,
                cs@ + print_from(dv, k as int) == print_from(dv, start as int),
            decreases n - k,
        {
            let ghost prev = cs@;
            cs.push(' ');
            cs.push(' ');
            cs.push(' ');
            cs.push(' ');
            push_dec(&mut cs, k + 1);
            cs.push(' ');
            push_chars(&mut cs, (&self.history[k]).as_str());
            cs.push('\n');
            proof {
                assert(prev + print_from(dv, k as int) =~= cs@ + print_from(dv, k + 1));
            }
            k = k + 1;
        }
        string_from_chars(cs.as_slice())
    }

    /// Merge lines read from a history file into the history; everything now
    /// held counts as persisted.
    pub fn read_history(&mut self, lines: &Vec<String>)
        ensures
            final(self).wf(),
            final(self).lines() == old(self).lines() + lines.deep_view(),
            final(self).appended_spec() == final(self).lines().len(),
            final(self).origin_spec() == old(self).origin_spec(),
    {
        let n = lines.len();
        let mut k: usize = 0;
        proof {
            assert(self.history.deep_view() =~= old(self).history.deep_view()
                + lines.deep_view().take(0));
        }
        while k < n
            invariant
                n == lines@.len(),
                k <= n,
                self.history.deep_view() == old(self).history.deep_view()
                    + lines.deep_view().take(k as int),
                self.appended == old(self).appended,
                self.org == old(self).org,
            decreases n - k,
        {
            let ghost prev = self.history.deep_view();
            self.history.push((&lines[k]).clone());
            proof {
                assert(self.history.deep_view() =~= prev.push(lines.deep_view()[k as int]));
                assert(self.history.deep_view() =~= old(self).history.deep_view()
                    + lines.deep_view().take(k + 1));
            }
            k = k + 1;
        }
        proof {
            assert(lines.deep_view().take(n as int) =~= lines.deep_view());
        }
        self.appended = self.history.len();
    }

    /// Mark the whole history as persisted; return the index the append
    /// starts from.
    pub fn append_history(&mut self) -> (start: usize)
        requires
            old(self).wf(),
        ensures
            final(self).wf(),
            start as int == old(self).appended_spec(),
            start <= final(self).lines().len(),
            final(self).lines() == old(self).lines(),
            final(self).appended_spec() == final(self).lines().len(),
            final(self).origin_spec() == old(self).origin_spec(),
    {
        let start = self.appended;
        self.appended = self.history.len();
        start
    }

    /// Render the whole history as the contents of a history file; the
    /// history then counts as persisted.
    pub fn write_history(&mut self) -> (contents: String)
        ensures
            final(self).wf(),
            contents@ == join_char(old(self).lines(), '\n'),
            final(self).lines() == old(self).lines(),
            final(self).appended_spec() == final(self).lines().len(),
            final(self).origin_spec() == old(self).origin_spec(),
    {
        let mut cs: Vec<char> = Vec::new();
        join_push(&mut cs, &self.history, '\n');
        self.appended = self.history.len();
        string_from_chars(cs.as_slice())
    }

    /// The contents a history file takes when the entries from `start` on
    /// are appended to its existing text.
    pub fn append_text(existing: &str, history: &Vec<String>, start: usize) -> (r: String)
        requires
            start <= history@.len(),
        ensures
            r@ == append_text_spec(existing@, history.deep_view(), start as int),
    {
        let ghost dv = history.deep_view();
        let mut cs = chars_of(existing);
        let needs_newline = if cs.len() == 0 {
            true
        } else {
            cs[cs.len() - 1] != '\n'
        };
        if needs_newline {
            cs.push('\n');
        }
        let ghost base = cs@;
        let n = history.len();
        let mut k: usize = start;
        proof {
            assert(cs@ + lines_concat(dv, start as int) =~= base + lines_concat(
                dv,
                start as int,
            ));
        }
        while k < n
            invariant
                n == history@.len(),
                dv == history.deep_view(),
                start <= k <= n,
                cs@ + lines_concat(dv, k as int) == base + lines_concat(dv, start as int),
            decreases n - k,
        {
            let ghost prev = cs@;
            push_chars(&mut cs, (&history[k]).as_str());
            cs.push('\n');
            proof {
                assert(prev + lines_concat(dv, k as int) =~= cs@ + lines_concat(dv, k + 1));
            }
            k = k + 1;
        }
        proof {
            assert(cs@ =~= append_text_spec(existing@, dv, start as int));
        }
        string_from_chars(cs.as_slice())
    }
}

/// What running `history` with these arguments does to the history and
/// yields: with no argument or a count, the numbered listing; with `-r`,
/// `-w` or `-a` and a path, a request to read, write or append that file,
/// the write carrying the rendered contents and the append the start index;
/// a missing path or a malformed count is an error.
pub open spec fn history_outcome(
    oldh: History,
    newh: History,
    rest: Seq<Seq<char>>,
    r: Result<(String, Action), Errors>,
) -> bool {
    if rest.len() == 0 {
        &&& newh == oldh
        &&& r matches Ok(p) && p.0@ == print_history_spec(oldh.lines(), None::<usize>)
            && p.1 is Nothing
    } else if rest[0] == "-r"@ {
        if rest.len() >= 2 {
            &&& newh == oldh
            &&& r matches Ok(p) && p.0@.len() == 0 && (p.1 matches Action::HistoryRead(path)
                && path@ == rest[1])
        } else {
            &&& newh == oldh
            &&& r matches Err(e) && (e matches Errors::MissingArgument(s) && s@ == "history"@)
        }
    } else if rest[0] == "-w"@ {
        if rest.len() >= 2 {
            &&& newh.lines() == oldh.lines()
            &&& newh.appended_spec() == newh.lines().len()
            &&& newh.origin_spec() == oldh.origin_spec()
            &&& r matches Ok(p) && p.0@.len() == 0 && (p.1 matches Action::HistoryWrite {
                path,
                contents,
            } && path@ == rest[1] && contents@ == join_char(oldh.lines(), '\n'))
        } else {
            &&& newh == oldh
            &&& r matches Err(e) && (e matches Errors::MissingArgument(s) && s@ == "history"@)
        }
    } else if rest[0] == "-a"@ {
        if rest.len() >= 2 {
            &&& newh.lines() == oldh.lines()
            &&& newh.appended_spec() == newh.lines().len()
            &&& newh.origin_spec() == oldh.origin_spec()
            &&& r matches Ok(p) && p.0@.len() == 0 && (p.1 matches Action::HistoryAppend {
                path,
                start,
            } && path@ == rest[1] && start as int == oldh.appended_spec())
        } else {
            &&& newh == oldh
            &&& r matches Err(e) && (e matches Errors::MissingArgument(s) && s@ == "history"@)
        }
    } else {
        match parse_usize_spec(rest[0]) {
            Some(c) => {
                &&& newh == oldh
                &&& r matches Ok(p) && p.0@ == print_history_spec(
                    oldh.lines(),
                    Some(c),
                ) && p.1 is Nothing
            },
            None => {
                &&& newh == oldh
                &&& r matches Err(e) && (e matches Errors::IncorrectArgumentType(a, b) && a@
                    == rest[0] && b@ == "Integer"@)
            },
        }
    }
}

/// Run the history builtin.
pub fn run(history: &mut History, rest: &Vec<String>) -> (r: Result<(String, Action), Errors>)
    requires
        old(history).wf(),
    ensures
        final(history).wf(),
        history_outcome(*old(history), *final(history), rest.deep_view(), r),
{
    proof {
        reveal_strlit("-r");
        reveal_strlit("-w");
        reveal_strlit("-a");
    }
    if rest.len() == 0 {
        let text = history.print_history(None);
        return Ok((text, Action::Nothing));
    }
    let first = &rest[0];
    let fc = chars_of(first.as_str());
    let flag = fc.len() == 2 && fc[0] == '-';
    let is_r = flag && fc[1] == 'r';
    let is_w = flag && fc[1] == 'w';
    let is_a = flag && fc[1] == 'a';
    proof {
        if is_r {
            assert(first@ =~= "-r"@);
        } else {
            assert(first@ != "-r"@);
        }
        if is_w {
            assert(first@ =~= "-w"@);
        } else {
            assert(first@ != "-w"@);
        }
        if is_a {
            assert(first@ =~= "-a"@);
        } else {
            assert(first@ != "-a"@);
        }
    }
    if is_r {
        if rest.len() >= 2 {
            Ok((String::new(), Action::HistoryRead((&rest[1]).clone())))
        } else {
            Err(Errors::MissingArgument(String::from_str("history")))
        }
    } else if is_w {
        if rest.len() >= 2 {
            let contents = history.write_history();
            Ok((String::new(), Action::HistoryWrite { path: (&rest[1]).clone(), contents }))
        } else {
            Err(Errors::MissingArgument(String::from_str("history")))
        }
    } else if is_a {
        if rest.len() >= 2 {
            let start = history.append_history();
            Ok((String::new(), Action::HistoryAppend { path: (&rest[1]).clone(), start }))
        } else {
            Err(Errors::MissingArgument(String::from_str("history")))
        }
    } else {
        match parse_usize(first.as_str()) {
            Some(c) => {
                let text = history.print_history(Some(c));
                Ok((text, Action::Nothing))
            },
            None => Err(
                Errors::IncorrectArgumentType((*first).clone(), String::from_str("Integer")),
            ),
        }
    }
}

} // verus!
