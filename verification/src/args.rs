//! Command-line parsing: the tokenizer, the unescaper, the pipeline splitter
//! and the redirect resolver.
//!
//! A raw input line is split into raw tokens (quote and escape markers still
//! present), each token is then unescaped into its literal value, the token
//! sequence is split into pipeline stages on the pipe token, and each stage is
//! assembled into a [`Command`] with an optional trailing [`Redirect`].

use vstd::prelude::*;

use crate::text::{chars_of, string_from_chars};
use vstd::string::StringExecFns;

verus! {

/// A parse error; fatal to the current input line only.
#[derive(Clone, Copy, Debug, PartialEq, Eq, Structural)]
pub enum Error {
    /// A pipe with no stage on its left.
    PipeAtBeginning,
    /// A pipe with no stage on its right.
    PipeAtEnd,
    /// Two pipe operators with nothing between them.
    PipeFollowingPipe,
    /// A double quote was opened and never closed.
    MissingEndDoubleQuote,
    /// A single quote was opened and never closed.
    MissingEndSingleQuote,
    /// A stage with no command name.
    MissingCommand,
}

/// The text reported for each parse error.
pub open spec fn error_text(e: Error) -> Seq<char> {
    match e {
        Error::PipeAtBeginning => ("No valid Program left of Pipe '|' found")@,
        Error::PipeAtEnd => ("No valid Program right of Pipe '|' found")@,
        Error::PipeFollowingPipe => ("A pipe is follwing a pipe?")@,
        Error::MissingEndDoubleQuote => ("The end double <\"> quote is missing")@,
        Error::MissingEndSingleQuote => ("The end single quote <'> is missing")@,
        Error::MissingCommand => ("No Command found")@,
    }
}

impl Error {
    /// The error's report text.
    pub fn message(&self) -> (r: String)
        ensures
            r@ == error_text(*self),
    {
        match self {
            Error::PipeAtBeginning => String::from_str("No valid Program left of Pipe '|' found"),
            Error::PipeAtEnd => String::from_str("No valid Program right of Pipe '|' found"),
            Error::PipeFollowingPipe => String::from_str("A pipe is follwing a pipe?"),
            Error::MissingEndDoubleQuote => String::from_str(
                "The end double <\"> quote is missing",
            ),
            Error::MissingEndSingleQuote => String::from_str("The end single quote <'> is missing"),
            Error::MissingCommand => String::from_str("No Command found"),
        }
    }
}

/// The class of a single input character. The same enum doubles as the
/// scanner's context: which kind of span the scanner currently stands in
/// (`WhiteSpace` meaning "in no token at all").
#[derive(Clone, Copy, Debug, PartialEq, Eq, Structural)]
pub enum Character {
    SingleQuote,
    DoubleQuote,
    WhiteSpace,
    Pipe,
    Other,
}

impl Character {
    /// Classification of one character; a pure function of the character value.
    pub open spec fn class(c: char) -> Character {
        if c == '\'' {
            Character::SingleQuote
        } else if c == '"' {
            Character::DoubleQuote
        } else if c == ' ' {
            Character::WhiteSpace
        } else if c == '|' {
            Character::Pipe
        } else {
            Character::Other
        }
    }

    /// Executable classification.
    pub fn of(c: char) -> (r: Character)
        ensures
            r == Character::class(c),
    {
        if c == '\'' {
            Character::SingleQuote
        } else if c == '"' {
            Character::DoubleQuote
        } else if c == ' ' {
            Character::WhiteSpace
        } else if c == '|' {
            Character::Pipe
        } else {
            Character::Other
        }
    }
}

/// The literal value of the raw token `s` from position `i` on, scanned in
/// quoting context `ctx` (`WhiteSpace` = outside quotes, or one of
/// `SingleQuote` / `DoubleQuote`).
///
/// The rules, per character:
/// - a quote matching the context closes it; a quote inside the other quote
///   kind is literal; a quote outside quotes opens a quoted span;
/// - backslash-backslash collapses to one backslash in every context;
/// - backslash before another character keeps both inside single quotes,
///   unescapes only a double quote inside double quotes, and outside quotes
///   keeps only the escaped character;
/// - a trailing backslash is dropped;
/// - every other character is copied through.
pub open spec fn unescape_run(s: Seq<char>, i: int, ctx: Character) -> Seq<char>
    decreases s.len() + 2 - i,
{
    if i < 0 || i >= s.len() {
        Seq::empty()
    } else {
        let c = s[i];
        if c == '\\' {
            if i + 1 >= s.len() {
                Seq::empty()
            } else {
                let x = s[i + 1];
                if x == '\\' {
                    seq!['\\'] + unescape_run(s, i + 2, ctx)
                } else if ctx is SingleQuote {
                    seq!['\\', x] + unescape_run(s, i + 2, ctx)
                } else if ctx is DoubleQuote {
                    if x == '"' {
                        seq!['"'] + unescape_run(s, i + 2, ctx)
                    } else {
                        seq!['\\', x] + unescape_run(s, i + 2, ctx)
                    }
                } else {
                    seq![x] + unescape_run(s, i + 2, ctx)
                }
            }
        } else if c == '\'' {
            if ctx is SingleQuote {
                unescape_run(s, i + 1, Character::WhiteSpace)
            } else if ctx is DoubleQuote {
                seq!['\''] + unescape_run(s, i + 1, ctx)
            } else {
                unescape_run(s, i + 1, Character::SingleQuote)
            }
        } else if c == '"' {
            if ctx is DoubleQuote {
                unescape_run(s, i + 1, Character::WhiteSpace)
            } else if ctx is SingleQuote {
                seq!['"'] + unescape_run(s, i + 1, ctx)
            } else {
                unescape_run(s, i + 1, Character::DoubleQuote)
            }
        } else {
            seq![c] + unescape_run(s, i + 1, ctx)
        }
    }
}

/// The literal value of a whole raw token.
pub open spec fn unescape(s: Seq<char>) -> Seq<char> {
    unescape_run(s, 0, Character::WhiteSpace)
}

/// Unescape one raw token into its literal character sequence.
pub fn unescape_token(token: &Vec<char>) -> (r: Vec<char>)
    ensures
        r@ == unescape(token@),
{
    let n = token.len();
    let mut out: Vec<char> = Vec::new();
    let mut i: usize = 0;
    let mut ctx = Character::WhiteSpace;
    while i < n
        invariant
            n == token@.len(),
            i <= n,
            out@ + unescape_run(token@, i as int, ctx) == unescape(token@),
        decreases n - i,
    {
        let ghost prev_i = i as int;
        let ghost prev_ctx = ctx;
        let ghost prev_out = out@;
        let c = token[i];
        if c == '\\' {
            if i + 1 >= n {
                i = n;
            } else {
                let x = token[i + 1];
                if x == '\\' {
                    out.push('\\');
                } else {
                    match ctx {
                        Character::SingleQuote => {
                            out.push('\\');
                            out.push(x);
                        },
                        Character::DoubleQuote => {
                            if x == '"' {
                                out.push('"');
                            } else {
                                out.push('\\');
                                out.push(x);
                            }
                        },
                        _ => {
                            out.push(x);
                        },
                    }
                }
                i = i + 2;
            }
        } else if c == '\'' {
            match ctx {
                Character::SingleQuote => {
                    ctx = Character::WhiteSpace;
                },
                Character::DoubleQuote => {
                    out.push('\'');
                },
                _ => {
                    ctx = Character::SingleQuote;
                },
            }
            i = i + 1;
        } else if c == '"' {
            match ctx {
                Character::DoubleQuote => {
                    ctx = Character::WhiteSpace;
                },
                Character::SingleQuote => {
                    out.push('"');
                },
                _ => {
                    ctx = Character::DoubleQuote;
                },
            }
            i = i + 1;
        } else {
            out.push(c);
            i = i + 1;
        }
        proof {
            assert(prev_out + unescape_run(token@, prev_i, prev_ctx) =~= out@ + unescape_run(
                token@,
                i as int,
                ctx,
            ));
        }
    }
    proof {
        assert(out@ + unescape_run(token@, i as int, ctx) =~= out@);
    }
    out
}

/// The character the scanner sees one position ahead of `i`: the input is
/// scanned as if a single space were appended, so that a trailing token is
/// flushed and a closing quote at the end of input is recognised.
pub open spec fn lookahead(s: Seq<char>, i: int) -> char {
    if i + 1 < s.len() {
        s[i + 1]
    } else {
        ' '
    }
}

/// The tokenizer's state machine, scanning `s` from position `i` in context
/// `ctx`, with `start` the offset where the current token began and `acc` the
/// tokens already emitted.
///
/// The rules, by (context, class of the current character):
/// - a backslash always protects the following character: both are consumed,
///   and a token begins at the backslash if none was in progress;
/// - a quote matching the context closes the token only if the next character
///   is whitespace or the end of input; otherwise the word continues, so
///   adjacent quoted and unquoted segments glue into one token;
/// - inside quotes, whitespace and pipes are ordinary characters;
/// - outside quotes, whitespace flushes the token in progress, and a pipe
///   flushes it and starts a one-character pipe token;
/// - a pipe directly following a pipe token is an error;
/// - at the end of input an open quote or a dangling pipe is an error, and a
///   word still in progress is flushed.
pub open spec fn split_run(
    s: Seq<char>,
    i: int,
    ctx: Character,
    start: int,
    acc: Seq<Seq<char>>,
) -> Result<Seq<Seq<char>>, Error>
    decreases s.len() + 2 - i,
{
    if i < 0 || i >= s.len() {
        match ctx {
            Character::SingleQuote => Err(Error::MissingEndSingleQuote),
            Character::DoubleQuote => Err(Error::MissingEndDoubleQuote),
            Character::Pipe => Err(Error::PipeAtEnd),
            Character::Other => Ok(acc.push(s.subrange(start, s.len() as int))),
            Character::WhiteSpace => Ok(acc),
        }
    } else {
        let c1 = s[i];
        let c2 = lookahead(s, i);
        if c1 == '\\' {
            if ctx is WhiteSpace {
                split_run(s, i + 2, Character::Other, i, acc)
            } else {
                split_run(s, i + 2, ctx, start, acc)
            }
        } else {
            match (ctx, Character::class(c1)) {
                (Character::SingleQuote, Character::SingleQuote) => {
                    if c2 == ' ' {
                        split_run(
                            s,
                            i + 1,
                            Character::WhiteSpace,
                            start,
                            acc.push(s.subrange(start, i + 1)),
                        )
                    } else {
                        split_run(s, i + 1, Character::Other, start, acc)
                    }
                },
                (Character::SingleQuote, _) => split_run(s, i + 1, ctx, start, acc),
                (Character::DoubleQuote, Character::DoubleQuote) => {
                    if c2 == ' ' {
                        split_run(
                            s,
                            i + 1,
                            Character::WhiteSpace,
                            start,
                            acc.push(s.subrange(start, i + 1)),
                        )
                    } else {
                        split_run(s, i + 1, Character::Other, start, acc)
                    }
                },
                (Character::DoubleQuote, _) => split_run(s, i + 1, ctx, start, acc),
                (Character::WhiteSpace, Character::WhiteSpace) => split_run(
                    s,
                    i + 1,
                    Character::WhiteSpace,
                    start,
                    acc,
                ),
                (Character::WhiteSpace, cls) => split_run(s, i + 1, cls, i, acc),
                (Character::Other, Character::SingleQuote) => split_run(
                    s,
                    i + 1,
                    Character::SingleQuote,
                    start,
                    acc,
                ),
                (Character::Other, Character::DoubleQuote) => split_run(
                    s,
                    i + 1,
                    Character::DoubleQuote,
                    start,
                    acc,
                ),
                (Character::Other, Character::WhiteSpace) => split_run(
                    s,
                    i + 1,
                    Character::WhiteSpace,
                    start,
                    acc.push(s.subrange(start, i)),
                ),
                (Character::Other, Character::Pipe) => split_run(
                    s,
                    i + 1,
                    Character::Pipe,
                    i,
                    acc.push(s.subrange(start, i)),
                ),
                (Character::Other, Character::Other) => split_run(s, i + 1, ctx, start, acc),
                (Character::Pipe, Character::Pipe) => Err(Error::PipeFollowingPipe),
                (Character::Pipe, cls) => split_run(s, i + 1, cls, i, acc.push(s.subrange(start, i))),
            }
        }
    }
}

/// The tokens of a raw input line, or the first tokenizer error.
pub open spec fn split_args_spec(s: Seq<char>) -> Result<Seq<Seq<char>>, Error> {
    split_run(s, 0, Character::WhiteSpace, 0, Seq::empty())
}

/// The token sequences of a parse result, with strings abstracted to their
/// character sequences.
pub open spec fn tokens_view(r: Result<Vec<String>, Error>) -> Result<Seq<Seq<char>>, Error> {
    match r {
        Ok(v) => Ok(v.deep_view()),
        Err(e) => Err(e),
    }
}

/// Split a raw input line into raw word and pipe tokens, honouring quote
/// nesting and backslash escapes.
pub fn split_args(args_raw: &str) -> (r: Result<Vec<String>, Error>)
    ensures
        tokens_view(r) == split_args_spec(args_raw@),
{
    let s = chars_of(args_raw);
    let n = s.len();
    let mut res: Vec<String> = Vec::new();
    let mut ctx = Character::WhiteSpace;
    let mut start: usize = 0;
    let mut i: usize = 0;
    proof {
        assert(res.deep_view() =~= Seq::<Seq<char>>::empty());
    }
    while i < n
        invariant
            n == s@.len(),
            s@ == args_raw@,
            i <= n,
            start <= i,
            start <= n,
            split_run(s@, i as int, ctx, start as int, res.deep_view()) == split_args_spec(
                args_raw@,
            ),
        decreases n - i,
    {
        let ghost prev = res.deep_view();
        let c1 = s[i];
        if c1 == '\\' {
            if let Character::WhiteSpace = ctx {
                ctx = Character::Other;
                start = i;
            }
            proof {
                if i + 2 > n {
                    assert(split_run(s@, i + 2, ctx, start as int, res.deep_view()) == split_run(
                        s@,
                        n as int,
                        ctx,
                        start as int,
                        res.deep_view(),
                    ));
                }
            }
            i = i + 1;
            if i < n {
                i = i + 1;
            }
        } else {
            let cls = Character::of(c1);
            match (ctx, cls) {
                (Character::SingleQuote, Character::SingleQuote)
                | (Character::DoubleQuote, Character::DoubleQuote) => {
                    let c2 = if i + 1 < n {
                        s[i + 1]
                    } else {
                        ' '
                    };
                    if c2 == ' ' {
                        let tok = string_from_chars(
                            vstd::slice::slice_subrange(s.as_slice(), start, i + 1),
                        );
                        res.push(tok);
                        proof {
                            assert(res.deep_view() =~= prev.push(s@.subrange(start as int, i + 1)));
                        }
                        ctx = Character::WhiteSpace;
                    } else {
                        ctx = Character::Other;
                    }
                },
                (Character::SingleQuote, _) | (Character::DoubleQuote, _) => {},
                (Character::WhiteSpace, Character::WhiteSpace) => {},
                (Character::WhiteSpace, c) => {
                    ctx = c;
                    start = i;
                },
                (Character::Other, Character::SingleQuote) => {
                    ctx = Character::SingleQuote;
                },
                (Character::Other, Character::DoubleQuote) => {
                    ctx = Character::DoubleQuote;
                },
                (Character::Other, Character::WhiteSpace) => {
                    let tok = string_from_chars(
                        vstd::slice::slice_subrange(s.as_slice(), start, i),
                    );
                    res.push(tok);
                    proof {
                        assert(res.deep_view() =~= prev.push(s@.subrange(start as int, i as int)));
                    }
                    ctx = Character::WhiteSpace;
                },
                (Character::Other, Character::Pipe) => {
                    let tok = string_from_chars(
                        vstd::slice::slice_subrange(s.as_slice(), start, i),
                    );
                    res.push(tok);
                    proof {
                        assert(res.deep_view() =~= prev.push(s@.subrange(start as int, i as int)));
                    }
                    ctx = Character::Pipe;
                    start = i;
                },
                (Character::Other, Character::Other) => {},
                (Character::Pipe, Character::Pipe) => {
                    return Err(Error::PipeFollowingPipe);
                },
                (Character::Pipe, c) => {
                    let tok = string_from_chars(
                        vstd::slice::slice_subrange(s.as_slice(), start, i),
                    );
                    res.push(tok);
                    proof {
                        assert(res.deep_view() =~= prev.push(s@.subrange(start as int, i as int)));
                    }
                    ctx = c;
                    start = i;
                },
            }
            i = i + 1;
        }
    }
    match ctx {
        Character::SingleQuote => Err(Error::MissingEndSingleQuote),
        Character::DoubleQuote => Err(Error::MissingEndDoubleQuote),
        Character::Pipe => Err(Error::PipeAtEnd),
        Character::Other => {
            let ghost prev = res.deep_view();
            let tok = string_from_chars(vstd::slice::slice_subrange(s.as_slice(), start, n));
            res.push(tok);
            proof {
                assert(res.deep_view() =~= prev.push(s@.subrange(start as int, n as int)));
            }
            Ok(res)
        },
        Character::WhiteSpace => Ok(res),
    }
}

/// All tokens of a line, unescaped.
pub open spec fn unescape_all(ts: Seq<Seq<char>>) -> Seq<Seq<char>> {
    ts.map_values(|t: Seq<char>| unescape(t))
}

/// Unescape every token of the line in place.
pub fn post_process_args(args: Vec<String>) -> (r: Result<Vec<String>, Error>)
    ensures
        r matches Ok(v) && v.deep_view() == unescape_all(args.deep_view()),
{
    let mut out: Vec<String> = Vec::new();
    let n = args.len();
    let mut k: usize = 0;
    while k < n
        invariant
            n == args@.len(),
            k <= n,
            out.deep_view() == unescape_all(args.deep_view().take(k as int)),
        decreases n - k,
    {
        let ghost prev = out.deep_view();
        let cs = chars_of((&args[k]).as_str());
        let u = unescape_token(&cs);
        out.push(string_from_chars(u.as_slice()));
        proof {
            assert(out.deep_view() =~= prev.push(unescape(args.deep_view()[k as int])));
            assert(out.deep_view() =~= unescape_all(args.deep_view().take(k + 1)));
        }
        k = k + 1;
    }
    proof {
        assert(args.deep_view().take(n as int) =~= args.deep_view());
    }
    Ok(out)
}

/// The pipe token: the single-character word `|`.
pub open spec fn pipe_token() -> Seq<char> {
    seq!['|']
}

/// Splitting the token sequence into stages on pipe tokens, from position
/// `i`, with `curr` the stage being gathered and `acc` the finished stages.
/// The pipe token itself appears in no stage; a trailing stage is always
/// emitted, even when empty.
pub open spec fn split_pipeline_run(
    args: Seq<Seq<char>>,
    i: int,
    curr: Seq<Seq<char>>,
    acc: Seq<Seq<Seq<char>>>,
) -> Seq<Seq<Seq<char>>>
    decreases args.len() - i,
{
    if i < 0 || i >= args.len() {
        acc.push(curr)
    } else if args[i] == pipe_token() {
        split_pipeline_run(args, i + 1, Seq::empty(), acc.push(curr))
    } else {
        split_pipeline_run(args, i + 1, curr.push(args[i]), acc)
    }
}

/// The stages of a token sequence.
pub open spec fn split_pipeline_spec(args: Seq<Seq<char>>) -> Seq<Seq<Seq<char>>> {
    split_pipeline_run(args, 0, Seq::empty(), Seq::empty())
}

/// Split the unescaped token sequence into per-stage token lists on pipe
/// tokens.
pub fn split_pipeline(args: Vec<String>) -> (r: Result<Vec<Vec<String>>, Error>)
    ensures
        r matches Ok(v) && v.deep_view() == split_pipeline_spec(args.deep_view()),
{
    let mut res: Vec<Vec<String>> = Vec::new();
    let mut curr: Vec<String> = Vec::new();
    let n = args.len();
    let mut k: usize = 0;
    proof {
        assert(curr.deep_view() =~= Seq::<Seq<char>>::empty());
        assert(res.deep_view() =~= Seq::<Seq<Seq<char>>>::empty());
    }
    while k < n
        invariant
            n == args@.len(),
            k <= n,
            split_pipeline_run(args.deep_view(), k as int, curr.deep_view(), res.deep_view())
                == split_pipeline_spec(args.deep_view()),
        decreases n - k,
    {
        let ghost prev_curr = curr.deep_view();
        let ghost prev_res = res.deep_view();
        let a = &args[k];
        let is_pipe = a.unicode_len() == 1 && a.as_str().get_char(0) == '|';
        proof {
            if is_pipe {
                assert(args.deep_view()[k as int] =~= pipe_token());
            } else {
                assert(args.deep_view()[k as int] != pipe_token());
            }
        }
        if is_pipe {
            res.push(curr);
            curr = Vec::new();
            proof {
                assert(res.deep_view() =~= prev_res.push(prev_curr));
                assert(curr.deep_view() =~= Seq::<Seq<char>>::empty());
            }
        } else {
            curr.push(a.clone());
            proof {
                assert(curr.deep_view() =~= prev_curr.push(args.deep_view()[k as int]));
            }
        }
        k = k + 1;
    }
    let ghost prev_res = res.deep_view();
    let ghost prev_curr = curr.deep_view();
    res.push(curr);
    proof {
        assert(res.deep_view() =~= prev_res.push(prev_curr));
    }
    Ok(res)
}

/// Which of a stage's standard streams a redirect targets.
#[derive(Clone, Copy, Debug, PartialEq, Eq, Structural)]
pub enum RedirectIO {
    Stdout,
    Stderr,
}

/// A request to send one of a stage's output streams to a file.
#[derive(Clone, Debug)]
pub struct Redirect {
    pub to: RedirectIO,
    pub append: bool,
    pub file_path: String,
}

/// The redirect operator a token denotes, if any: `>` and `1>` truncate
/// stdout, `2>` truncates stderr, `>>` and `1>>` append to stdout, `2>>`
/// appends to stderr.
pub open spec fn redirect_op(t: Seq<char>) -> Option<(RedirectIO, bool)> {
    if t == seq!['>'] || t == seq!['1', '>'] {
        Some((RedirectIO::Stdout, false))
    } else if t == seq!['2', '>'] {
        Some((RedirectIO::Stderr, false))
    } else if t == seq!['>', '>'] || t == seq!['1', '>', '>'] {
        Some((RedirectIO::Stdout, true))
    } else if t == seq!['2', '>', '>'] {
        Some((RedirectIO::Stderr, true))
    } else {
        None
    }
}

/// The position, at or after `i`, of the leftmost redirect operator that is
/// immediately followed by a path token; an operator with nothing after it is
/// an ordinary argument.
pub open spec fn find_redirect_idx(rest: Seq<Seq<char>>, i: int) -> Option<int>
    decreases rest.len() - i,
{
    if i < 0 || i + 1 >= rest.len() {
        None
    } else if redirect_op(rest[i]) is Some {
        Some(i)
    } else {
        find_redirect_idx(rest, i + 1)
    }
}

/// A found redirect operator position lies properly inside the argument
/// list: a path token follows it.
proof fn lemma_find_redirect_idx_bounds(rest: Seq<Seq<char>>, i: int)
    requires
        0 <= i,
    ensures
        find_redirect_idx(rest, i) matches Some(j) ==> i <= j && j + 1 < rest.len(),
    decreases rest.len() - i,
{
    if i + 1 >= rest.len() {
    } else if redirect_op(rest[i]) is Some {
    } else {
        lemma_find_redirect_idx_bounds(rest, i + 1);
    }
}

/// The redirect operator an argument token denotes, if any.
fn redirect_op_of(t: &String) -> (r: Option<(RedirectIO, bool)>)
    ensures
        r == redirect_op(t@),
{
    let cs = chars_of(t.as_str());
    let n = cs.len();
    proof {
        assert(seq!['>'].len() == 1);
        assert(seq!['1', '>'].len() == 2);
        assert(seq!['2', '>'].len() == 2);
        assert(seq!['>', '>'].len() == 2);
        assert(seq!['1', '>', '>'].len() == 3);
        assert(seq!['2', '>', '>'].len() == 3);
    }
    if n == 1 && cs[0] == '>' {
        proof {
            assert(t@ =~= seq!['>']);
        }
        Some((RedirectIO::Stdout, false))
    } else if n == 2 && cs[0] == '1' && cs[1] == '>' {
        proof {
            assert(t@ =~= seq!['1', '>']);
        }
        Some((RedirectIO::Stdout, false))
    } else if n == 2 && cs[0] == '2' && cs[1] == '>' {
        proof {
            assert(t@ =~= seq!['2', '>']);
        }
        Some((RedirectIO::Stderr, false))
    } else if n == 2 && cs[0] == '>' && cs[1] == '>' {
        proof {
            assert(t@ =~= seq!['>', '>']);
        }
        Some((RedirectIO::Stdout, true))
    } else if n == 3 && cs[0] == '1' && cs[1] == '>' && cs[2] == '>' {
        proof {
            assert(t@ =~= seq!['1', '>', '>']);
        }
        Some((RedirectIO::Stdout, true))
    } else if n == 3 && cs[0] == '2' && cs[1] == '>' && cs[2] == '>' {
        proof {
            assert(t@ =~= seq!['2', '>', '>']);
        }
        Some((RedirectIO::Stderr, true))
    } else {
        None
    }
}

impl Redirect {
    /// Scan a stage's argument tokens left to right for the first redirect
    /// operator immediately followed by a path token; return its position and
    /// the redirect it denotes.
    pub fn find_redirect(args: &[String]) -> (r: Option<(usize, Redirect)>)
        ensures
            find_redirect_idx(args.deep_view(), 0) matches Some(i) ==> r matches Some(p) && p.0
                as int == i && (redirect_op(args.deep_view()[i]) matches Some(ab) && p.1.to == ab.0
                && p.1.append == ab.1 && p.1.file_path@ == args.deep_view()[i + 1]),
            find_redirect_idx(args.deep_view(), 0) is None ==> r is None,
    {
        let n = args.len();
        if n == 0 {
            return None;
        }
        let mut i: usize = 0;
        while i < n - 1
            invariant
                n == args@.len(),
                n >= 1,
                i <= n,
                find_redirect_idx(args.deep_view(), 0) == find_redirect_idx(
                    args.deep_view(),
                    i as int,
                ),
            decreases n - i,
        {
            let op = redirect_op_of(&args[i]);
            match op {
                Some((to, append)) => {
                    return Some(
                        (
                            i,
                            Redirect {
                                to,
                                append,
                                file_path: args[i + 1].clone(),
                            },
                        ),
                    );
                },
                None => {
                    i = i + 1;
                },
            }
        }
        None
    }
}

/// One pipeline stage: a command name, its arguments, and an optional
/// redirect.
#[derive(Clone, Debug)]
pub struct Command {
    pub command: String,
    pub args: Vec<String>,
    pub redirect: Option<Redirect>,
}

/// The stage record `c` is the one that the token list `stage` denotes: the
/// first token is the command, the arguments stop before the leftmost
/// redirect operator-path pair, and that pair, if present, is the redirect
/// (tokens after the path are discarded).
pub open spec fn stage_matches(c: Command, stage: Seq<Seq<char>>) -> bool {
    &&& stage.len() > 0
    &&& c.command@ == stage[0]
    &&& {
        let rest = stage.skip(1);
        match find_redirect_idx(rest, 0) {
            Some(i) => {
                &&& c.args.deep_view() == rest.take(i)
                &&& c.redirect matches Some(rd) && (redirect_op(rest[i]) matches Some(ab) && rd.to
                    == ab.0 && rd.append == ab.1 && rd.file_path@ == rest[i + 1])
            },
            None => c.args.deep_view() == rest && c.redirect is None,
        }
    }
}

impl Command {
    /// Assemble one stage from its token list; an empty list has no command.
    pub fn new(args: &Vec<String>) -> (r: Result<Command, Error>)
        ensures
            args.deep_view().len() == 0 ==> r matches Err(Error::MissingCommand),
            args.deep_view().len() > 0 ==> (r matches Ok(c) && stage_matches(c, args.deep_view())),
    {
        let n = args.len();
        if n == 0 {
            return Err(Error::MissingCommand);
        }
        let command = (&args[0]).clone();
        let rest = vstd::slice::slice_subrange(args.as_slice(), 1, n);
        proof {
            assert(rest.deep_view() =~= args.deep_view().skip(1));
            lemma_find_redirect_idx_bounds(rest.deep_view(), 0);
        }
        let found = Redirect::find_redirect(rest);
        let take_to: usize = match &found {
            Some((i, _)) => *i,
            None => rest.len(),
        };
        let mut newargs: Vec<String> = Vec::new();
        let mut k: usize = 0;
        proof {
            assert(newargs.deep_view() =~= rest.deep_view().take(0));
        }
        while k < take_to
            invariant
                take_to <= rest@.len(),
                k <= take_to,
                newargs.deep_view() == rest.deep_view().take(k as int),
            decreases take_to - k,
        {
            let ghost prev = newargs.deep_view();
            let val = rest[k].clone();
            proof {
                assert(val@ == rest.deep_view()[k as int]);
            }
            newargs.push(val);
            proof {
                assert(newargs.deep_view() =~= prev.push(rest.deep_view()[k as int]));
                assert(newargs.deep_view() =~= rest.deep_view().take(k + 1));
            }
            k = k + 1;
        }
        let redirect = match found {
            Some((_, rd)) => Some(rd),
            None => None,
        };
        proof {
            if find_redirect_idx(rest.deep_view(), 0) is None {
                assert(newargs.deep_view() =~= rest.deep_view());
            }
        }
        Ok(Command { command, args: newargs, redirect })
    }
}

/// The stages of a raw input line: tokenize, unescape, split on pipes. A line
/// beginning with a pipe is rejected before tokenizing.
pub open spec fn process_args_inner_spec(s: Seq<char>) -> Result<Seq<Seq<Seq<char>>>, Error> {
    if s.len() > 0 && s[0] == '|' {
        Err(Error::PipeAtBeginning)
    } else {
        match split_args_spec(s) {
            Err(e) => Err(e),
            Ok(toks) => Ok(split_pipeline_spec(unescape_all(toks))),
        }
    }
}

/// Parse a raw input line (already trimmed of surrounding whitespace) into
/// per-stage lists of literal argument strings.
pub fn process_args_inner(args: &str) -> (r: Result<Vec<Vec<String>>, Error>)
    ensures
        r matches Ok(v) ==> process_args_inner_spec(args@) == Ok::<_, Error>(v.deep_view()),
        r matches Err(e) ==> process_args_inner_spec(args@) == Err::<Seq<Seq<Seq<char>>>, _>(e),
{
    if args.unicode_len() > 0 && args.get_char(0) == '|' {
        return Err(Error::PipeAtBeginning);
    }
    let tokens = match split_args(args) {
        Ok(v) => v,
        Err(e) => {
            return Err(e);
        },
    };
    let unescaped = match post_process_args(tokens) {
        Ok(v) => v,
        Err(e) => {
            return Err(e);
        },
    };
    match split_pipeline(unescaped) {
        Ok(v) => Ok(v),
        Err(e) => Err(e),
    }
}

/// Every stage of the pipeline has at least a command token.
pub open spec fn all_stages_nonempty(stages: Seq<Seq<Seq<char>>>) -> bool {
    forall|k: int| 0 <= k < stages.len() ==> (#[trigger] stages[k]).len() > 0
}

/// The stage records `cs` are exactly those that the stage token lists
/// `stages` denote, in order.
pub open spec fn commands_match(cs: Seq<Command>, stages: Seq<Seq<Seq<char>>>) -> bool {
    &&& cs.len() == stages.len()
    &&& forall|k: int| 0 <= k < stages.len() ==> stage_matches(#[trigger] cs[k], stages[k])
}

/// Parse a raw input line into its pipeline of stage records.
pub fn process_args(args: &str) -> (r: Result<Vec<Command>, Error>)
    ensures
        process_args_inner_spec(args@) matches Err(e) ==> (r matches Err(e2) && e2 == e),
        process_args_inner_spec(args@) matches Ok(stages) ==> (all_stages_nonempty(stages) ==> (
        r matches Ok(v) && commands_match(v@, stages))),
        process_args_inner_spec(args@) matches Ok(stages) ==> (!all_stages_nonempty(stages)
            ==> r matches Err(Error::MissingCommand)),
{
    let stages = match process_args_inner(args) {
        Ok(v) => v,
        Err(e) => {
            return Err(e);
        },
    };
    let ghost sv = stages.deep_view();
    let mut out: Vec<Command> = Vec::new();
    let n = stages.len();
    let mut k: usize = 0;
    while k < n
        invariant
            n == stages@.len(),
            sv == stages.deep_view(),
            sv.len() == n,
            process_args_inner_spec(args@) == Ok::<_, Error>(sv),
            k <= n,
            out@.len() == k,
            forall|j: int| 0 <= j < k ==> (#[trigger] sv[j]).len() > 0,
            forall|j: int| 0 <= j < k ==> stage_matches(#[trigger] out@[j], sv[j]),
        decreases n - k,
    {
        let stage = &stages[k];
        proof {
            assert(stage.deep_view() == sv[k as int]);
        }
        match Command::new(stage) {
            Ok(c) => {
                out.push(c);
            },
            Err(e) => {
                proof {
                    assert(sv[k as int].len() == 0);
                    assert(!all_stages_nonempty(sv));
                    assert(e == Error::MissingCommand);
                }
                return Err(e);
            },
        }
        k = k + 1;
    }
    Ok(out)
}

/// A character with no quoting or escaping power.
pub open spec fn is_plain_char(c: char) -> bool {
    c != '\'' && c != '"' && c != '\\'
}

/// A token consisting only of characters with no quoting or escaping power.
pub open spec fn plain_token(s: Seq<char>) -> bool {
    forall|j: int| 0 <= j < s.len() ==> is_plain_char(#[trigger] s[j])
}

/// Unescaping depends only on the characters not yet scanned: two scans over
/// the same remainder, in the same context, give the same result.
proof fn lemma_unescape_run_congruent(s: Seq<char>, i: int, t: Seq<char>, j: int, ctx: Character)
    requires
        0 <= i <= s.len(),
        0 <= j <= t.len(),
        s.skip(i) == t.skip(j),
    ensures
        unescape_run(s, i, ctx) == unescape_run(t, j, ctx),
    decreases s.len() - i,
{
    assert(s.len() - i == t.len() - j) by {
        assert(s.skip(i) == t.skip(j));
        assert(s.subrange(i, s.len() as int).len() == s.len() - i);
        assert(t.subrange(j, t.len() as int).len() == t.len() - j);
    }
    if i < s.len() {
        assert(s[i] == t[j]) by {
            assert(s.skip(i) == t.skip(j));
            assert(s.subrange(i, s.len() as int)[0] == s[i]);
            assert(t.subrange(j, t.len() as int)[0] == t[j]);
        }
        if i + 1 < s.len() {
            assert(s[i + 1] == t[j + 1]) by {
                assert(s.subrange(i, s.len() as int)[1] == s[i + 1]);
                assert(t.subrange(j, t.len() as int)[1] == t[j + 1]);
            }
        }
        assert(s.skip(i + 1) =~= t.skip(j + 1)) by {
            assert(forall|m: int|
                0 <= m < s.len() - i - 1 ==> #[trigger] s.skip(i + 1)[m] == s.skip(i)[m + 1]
                    && #[trigger] t.skip(j + 1)[m] == t.skip(j)[m + 1]);
        }
        if i + 2 <= s.len() {
            assert(s.skip(i + 2) =~= t.skip(j + 2)) by {
                assert(forall|m: int|
                    0 <= m < s.len() - i - 2 ==> #[trigger] s.skip(i + 2)[m] == s.skip(i)[m + 2]
                        && #[trigger] t.skip(j + 2)[m] == t.skip(j)[m + 2]);
            }
            lemma_unescape_run_congruent(s, i + 2, t, j + 2, ctx);
        }
        lemma_unescape_run_congruent(s, i + 1, t, j + 1, Character::WhiteSpace);
        lemma_unescape_run_congruent(s, i + 1, t, j + 1, Character::SingleQuote);
        lemma_unescape_run_congruent(s, i + 1, t, j + 1, Character::DoubleQuote);
        lemma_unescape_run_congruent(s, i + 1, t, j + 1, ctx);
    }
}

/// Law: a token containing no quote or backslash characters unescapes to
/// itself, in any scanning context.
pub proof fn lemma_unescape_run_plain_identity(s: Seq<char>, i: int, ctx: Character)
    requires
        0 <= i <= s.len(),
        plain_token(s),
    ensures
        unescape_run(s, i, ctx) == s.skip(i),
    decreases s.len() - i,
{
    if i < s.len() {
        lemma_unescape_run_plain_identity(s, i + 1, ctx);
        assert(unescape_run(s, i, ctx) =~= s.skip(i));
    } else {
        assert(unescape_run(s, i, ctx) =~= s.skip(i));
    }
}

/// Law: unescaping a token containing no quote or backslash characters
/// returns it unchanged.
pub proof fn lemma_unescape_plain_identity(s: Seq<char>)
    requires
        plain_token(s),
    ensures
        unescape(s) == s,
{
    lemma_unescape_run_plain_identity(s, 0, Character::WhiteSpace);
    assert(s.skip(0) =~= s);
}

/// Inside a quoted span, every character other than a backslash or the
/// matching quote is copied through unchanged.
proof fn lemma_unescape_run_literal_span(s: Seq<char>, i: int, j: int, ctx: Character)
    requires
        0 <= i <= j <= s.len(),
        ctx is SingleQuote || ctx is DoubleQuote,
        forall|k: int|
            i <= k < j ==> #[trigger] s[k] != '\\' && (ctx is SingleQuote ==> s[k] != '\'') && (
            ctx is DoubleQuote ==> s[k] != '"'),
    ensures
        unescape_run(s, i, ctx) == s.subrange(i, j) + unescape_run(s, j, ctx),
    decreases j - i,
{
    if i == j {
        assert(s.subrange(i, j) =~= Seq::<char>::empty());
        assert(unescape_run(s, i, ctx) =~= s.subrange(i, j) + unescape_run(s, j, ctx));
    } else {
        lemma_unescape_run_literal_span(s, i + 1, j, ctx);
        assert(unescape_run(s, i, ctx) =~= s.subrange(i, j) + unescape_run(s, j, ctx));
    }
}

/// Law: a single-quoted span whose contents hold no single quote and no
/// backslash unescapes to exactly its contents — inner double quotes stay
/// literal — followed by whatever the rest of the token yields; so adjacent
/// quoted segments glue seamlessly onto what follows.
pub proof fn lemma_unescape_single_quoted_span(a: Seq<char>, rest: Seq<char>)
    requires
        forall|j: int| 0 <= j < a.len() ==> #[trigger] a[j] != '\'' && a[j] != '\\',
    ensures
        unescape(seq!['\''] + a + seq!['\''] + rest) == a + unescape(rest),
{
    let s = seq!['\''] + a + seq!['\''] + rest;
    let n = a.len() as int;
    assert(s[0] == '\'');
    assert(unescape_run(s, 0, Character::WhiteSpace) == unescape_run(
        s,
        1,
        Character::SingleQuote,
    ));
    assert forall|k: int| 1 <= k < 1 + n implies #[trigger] s[k] != '\\' && s[k]
        != '\'' by {
        assert(s[k] == a[k - 1]);
    }
    lemma_unescape_run_literal_span(s, 1, 1 + n, Character::SingleQuote);
    assert(s.subrange(1, 1 + n) =~= a);
    assert(s[1 + n] == '\'');
    assert(unescape_run(s, 1 + n, Character::SingleQuote) == unescape_run(
        s,
        2 + n,
        Character::WhiteSpace,
    ));
    assert(s.skip(2 + n) =~= rest.skip(0));
    lemma_unescape_run_congruent(s, 2 + n, rest, 0, Character::WhiteSpace);
}

/// Law: a double-quoted span whose contents hold no double quote and no
/// backslash unescapes to exactly its contents — inner single quotes stay
/// literal — followed by whatever the rest of the token yields.
pub proof fn lemma_unescape_double_quoted_span(a: Seq<char>, rest: Seq<char>)
    requires
        forall|j: int| 0 <= j < a.len() ==> #[trigger] a[j] != '"' && a[j] != '\\',
    ensures
        unescape(seq!['"'] + a + seq!['"'] + rest) == a + unescape(rest),
{
    let s = seq!['"'] + a + seq!['"'] + rest;
    let n = a.len() as int;
    assert(s[0] == '"');
    assert(unescape_run(s, 0, Character::WhiteSpace) == unescape_run(
        s,
        1,
        Character::DoubleQuote,
    ));
    assert forall|k: int| 1 <= k < 1 + n implies #[trigger] s[k] != '\\' && s[k] != '"' by {
        assert(s[k] == a[k - 1]);
    }
    lemma_unescape_run_literal_span(s, 1, 1 + n, Character::DoubleQuote);
    assert(s.subrange(1, 1 + n) =~= a);
    assert(s[1 + n] == '"');
    assert(unescape_run(s, 1 + n, Character::DoubleQuote) == unescape_run(
        s,
        2 + n,
        Character::WhiteSpace,
    ));
    assert(s.skip(2 + n) =~= rest.skip(0));
    lemma_unescape_run_congruent(s, 2 + n, rest, 0, Character::WhiteSpace);
}

/// Law: outside quotes, a backslash before any character (whitespace
/// included) is removed and the character itself is kept.
pub proof fn lemma_unescape_escape_outside_quotes(c: char, rest: Seq<char>)
    requires
        c != '\\',
    ensures
        unescape(seq!['\\', c] + rest) == seq![c] + unescape(rest),
{
    let s = seq!['\\', c] + rest;
    assert(s[0] == '\\' && s[1] == c);
    assert(s.skip(2) =~= rest.skip(0));
    lemma_unescape_run_congruent(s, 2, rest, 0, Character::WhiteSpace);
}

/// Law: a double backslash collapses to a single literal backslash, in every
/// scanning context.
pub proof fn lemma_unescape_double_backslash(rest: Seq<char>, ctx: Character)
    ensures
        unescape_run(seq!['\\', '\\'] + rest, 0, ctx) == seq!['\\'] + unescape_run(rest, 0, ctx),
{
    let s = seq!['\\', '\\'] + rest;
    assert(s[0] == '\\' && s[1] == '\\');
    assert(s.skip(2) =~= rest.skip(0));
    lemma_unescape_run_congruent(s, 2, rest, 0, ctx);
}

} // verus!
