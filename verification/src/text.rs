//! Character-level helpers shared by the tokenizer and the builtins:
//! conversions between `String` and `Vec<char>`, decimal formatting and
//! integer parsing.

use vstd::prelude::*;
use vstd::string::StrSliceExecFns;

verus! {

/// Collect the characters of a string slice into a vector.
pub fn chars_of(s: &str) -> (r: Vec<char>)
    ensures
        r@ == s@,
{
    let n = s.unicode_len();
    let mut r: Vec<char> = Vec::new();
    let mut i: usize = 0;
    while i < n
        invariant
            n == s@.len(),
            i <= n,
            r@ == s@.subrange(0, i as int),
        decreases n - i,
    {
        r.push(s.get_char(i));
        i += 1;
        proof {
            assert(r@ =~= s@.subrange(0, i as int));
        }
    }
    proof {
        assert(r@ =~= s@);
    }
    r
}

/// Relies on `String` being built from its characters (`FromIterator<char>`
/// via `collect`): the resulting string holds exactly the given characters.
#[verifier::external_body]
pub fn string_from_chars(cs: &[char]) -> (r: String)
    ensures
        r@ == cs@,
{
    cs.iter().collect()
}

/// Append the characters of a string slice to a character vector.
pub fn push_chars(out: &mut Vec<char>, s: &str)
    ensures
        final(out)@ == old(out)@ + s@,
{
    let n = s.unicode_len();
    let mut i: usize = 0;
    while i < n
        invariant
            n == s@.len(),
            i <= n,
            out@ == old(out)@ + s@.subrange(0, i as int),
        decreases n - i,
    {
        out.push(s.get_char(i));
        i += 1;
        proof {
            assert(out@ =~= old(out)@ + s@.subrange(0, i as int));
        }
    }
    proof {
        assert(out@ =~= old(out)@ + s@);
    }
}

/// The sequences of `args` joined by the single separator character `sep`.
pub open spec fn join_char(args: Seq<Seq<char>>, sep: char) -> Seq<char>
    decreases args.len(),
{
    if args.len() == 0 {
        Seq::empty()
    } else if args.len() == 1 {
        args[0]
    } else {
        join_char(args.drop_last(), sep) + seq![sep] + args.last()
    }
}

/// Append the strings of `args`, separated by `sep`, to a character vector.
pub fn join_push(out: &mut Vec<char>, args: &Vec<String>, sep: char)
    ensures
        final(out)@ == old(out)@ + join_char(args.deep_view(), sep),
{
    let ghost dv = args.deep_view();
    let n = args.len();
    let mut k: usize = 0;
    proof {
        assert(out@ =~= old(out)@ + join_char(dv.take(0), sep));
    }
    while k < n
        invariant
            n == args@.len(),
            dv == args.deep_view(),
            k <= n,
            out@ == old(out)@ + join_char(dv.take(k as int), sep),
        decreases n - k,
    {
        if k > 0 {
            out.push(sep);
        }
        push_chars(out, (&args[k]).as_str());
        proof {
            assert(dv.take(k + 1).drop_last() =~= dv.take(k as int));
            assert(dv.take(k + 1).last() == dv[k as int]);
            if k == 0 {
                assert(join_char(dv.take(1), sep) == dv.take(1)[0]);
                assert(out@ =~= old(out)@ + join_char(dv.take(1), sep));
            } else {
                assert(join_char(dv.take(k + 1), sep) == join_char(dv.take(k as int), sep)
                    + seq![sep] + dv[k as int]);
                assert(out@ =~= old(out)@ + join_char(dv.take(k + 1), sep));
            }
        }
        k = k + 1;
    }
    proof {
        assert(dv.take(n as int) =~= dv);
    }
}

/// The decimal digit character for a value below ten.
pub open spec fn dec_digit(d: int) -> char {
    if d == 0 {
        '0'
    } else if d == 1 {
        '1'
    } else if d == 2 {
        '2'
    } else if d == 3 {
        '3'
    } else if d == 4 {
        '4'
    } else if d == 5 {
        '5'
    } else if d == 6 {
        '6'
    } else if d == 7 {
        '7'
    } else if d == 8 {
        '8'
    } else {
        '9'
    }
}

/// The decimal rendering of a natural number, most significant digit first,
/// with no leading zeros (zero itself rendered as one digit).
pub open spec fn dec_str(n: nat) -> Seq<char>
    decreases n,
{
    if n < 10 {
        seq![dec_digit(n as int)]
    } else {
        dec_str(n / 10) + seq![dec_digit((n % 10) as int)]
    }
}

/// The decimal digit character for a value below ten.
fn dec_digit_char(d: usize) -> (c: char)
    requires
        d < 10,
    ensures
        c == dec_digit(d as int),
{
    if d == 0 {
        '0'
    } else if d == 1 {
        '1'
    } else if d == 2 {
        '2'
    } else if d == 3 {
        '3'
    } else if d == 4 {
        '4'
    } else if d == 5 {
        '5'
    } else if d == 6 {
        '6'
    } else if d == 7 {
        '7'
    } else if d == 8 {
        '8'
    } else {
        '9'
    }
}

/// Append the decimal rendering of `n` to a character vector.
pub fn push_dec(out: &mut Vec<char>, n: usize)
    ensures
        final(out)@ == old(out)@ + dec_str(n as nat),
    decreases n,
{
    if n < 10 {
        out.push(dec_digit_char(n));
        proof {
            assert(out@ =~= old(out)@ + dec_str(n as nat));
        }
    } else {
        push_dec(out, n / 10);
        out.push(dec_digit_char(n % 10));
        proof {
            assert(out@ =~= old(out)@ + dec_str(n as nat));
        }
    }
}

/// The decimal rendering of `n` as a string.
pub fn usize_to_string(n: usize) -> (r: String)
    ensures
        r@ == dec_str(n as nat),
{
    let mut out: Vec<char> = Vec::new();
    push_dec(&mut out, n);
    string_from_chars(out.as_slice())
}

/// The decimal rendering of a (possibly negative) integer.
pub open spec fn int_str(n: int) -> Seq<char> {
    if n < 0 {
        seq!['-'] + dec_str((-n) as nat)
    } else {
        dec_str(n as nat)
    }
}

/// The decimal rendering of `n` as a string, with a leading minus sign when
/// negative.
pub fn i32_to_string(n: i32) -> (r: String)
    ensures
        r@ == int_str(n as int),
{
    let mut out: Vec<char> = Vec::new();
    if n < 0 {
        out.push('-');
        let m = -(n as i64);
        let m = m as usize;
        push_dec(&mut out, m);
        proof {
            assert(out@ =~= int_str(n as int));
        }
    } else {
        push_dec(&mut out, n as usize);
    }
    string_from_chars(out.as_slice())
}

/// A decimal digit character.
pub open spec fn is_dec_digit(c: char) -> bool {
    c == '0' || c == '1' || c == '2' || c == '3' || c == '4' || c == '5' || c == '6' || c == '7'
        || c == '8' || c == '9'
}

/// The value of one decimal digit character; zero for any other character.
pub open spec fn dec_digit_val(c: char) -> int {
    if c == '1' {
        1
    } else if c == '2' {
        2
    } else if c == '3' {
        3
    } else if c == '4' {
        4
    } else if c == '5' {
        5
    } else if c == '6' {
        6
    } else if c == '7' {
        7
    } else if c == '8' {
        8
    } else if c == '9' {
        9
    } else {
        0
    }
}

/// Every character of `s` is a decimal digit.
pub open spec fn all_dec_digits(s: Seq<char>) -> bool {
    forall|i: int| 0 <= i < s.len() ==> is_dec_digit(#[trigger] s[i])
}

/// The value of a sequence of decimal digit characters, most significant
/// first.
pub open spec fn dec_val(s: Seq<char>) -> int
    decreases s.len(),
{
    if s.len() == 0 {
        0
    } else {
        dec_val(s.drop_last()) * 10 + dec_digit_val(s.last())
    }
}

/// The value of a digit string is never negative.
proof fn lemma_dec_val_nonneg(s: Seq<char>)
    ensures
        dec_val(s) >= 0,
    decreases s.len(),
{
    if s.len() > 0 {
        lemma_dec_val_nonneg(s.drop_last());
    }
}

/// Extending a digit string never shrinks its value.
proof fn lemma_dec_val_take_monotone(s: Seq<char>, i: int, j: int)
    requires
        0 <= i <= j <= s.len(),
    ensures
        dec_val(s.take(i)) <= dec_val(s.take(j)),
    decreases j - i,
{
    if i < j {
        lemma_dec_val_take_monotone(s, i, j - 1);
        assert(s.take(j).drop_last() =~= s.take(j - 1));
        lemma_dec_val_nonneg(s.take(j - 1));
    }
}

/// What parsing an unsigned decimal digit string yields: its value, if the
/// string is a nonempty run of digits whose value fits.
pub open spec fn parse_u64_spec(digits: Seq<char>) -> Option<u64> {
    if digits.len() > 0 && all_dec_digits(digits) && dec_val(digits) <= u64::MAX {
        Some(dec_val(digits) as u64)
    } else {
        None
    }
}

/// Parse the characters of `cs` from position `from` on as an unsigned
/// decimal number.
fn parse_u64_digits(cs: &Vec<char>, from: usize) -> (r: Option<u64>)
    requires
        from <= cs@.len(),
    ensures
        r == parse_u64_spec(cs@.skip(from as int)),
{
    let ghost digits = cs@.skip(from as int);
    let n = cs.len();
    if from == n {
        return None;
    }
    let mut acc: u64 = 0;
    let mut i: usize = from;
    while i < n
        invariant
            from < n,
            n == cs@.len(),
            from <= i <= n,
            digits == cs@.skip(from as int),
            all_dec_digits(digits.take(i - from)),
            acc == dec_val(digits.take(i - from)),
        decreases n - i,
    {
        let c = cs[i];
        let d: u64 = if c == '0' {
            0
        } else if c == '1' {
            1
        } else if c == '2' {
            2
        } else if c == '3' {
            3
        } else if c == '4' {
            4
        } else if c == '5' {
            5
        } else if c == '6' {
            6
        } else if c == '7' {
            7
        } else if c == '8' {
            8
        } else if c == '9' {
            9
        } else {
            proof {
                assert(digits[i - from] == c);
                assert(!all_dec_digits(digits));
            }
            return None;
        };
        proof {
            assert(digits[i - from] == c);
            assert(is_dec_digit(c) && dec_digit_val(c) == d);
            assert(digits.take(i - from + 1).drop_last() =~= digits.take(i - from));
        }
        if acc > (u64::MAX - d) / 10 {
            proof {
                assert(dec_val(digits.take(i - from + 1)) == acc * 10 + d > u64::MAX);
                lemma_dec_val_take_monotone(digits, i - from + 1, digits.len() as int);
                assert(digits.take(digits.len() as int) =~= digits);
                assert(dec_val(digits) > u64::MAX);
            }
            return None;
        }
        acc = acc * 10 + d;
        i += 1;
        proof {
            assert(all_dec_digits(digits.take(i - from)));
        }
    }
    proof {
        assert(digits.take(n - from) =~= digits);
    }
    Some(acc)
}

/// What parsing an unsigned decimal integer from a token yields, mirroring
/// integer parsing from a string: an optional leading plus sign, then at
/// least one digit, and a value that fits.
pub open spec fn parse_usize_spec(s: Seq<char>) -> Option<usize> {
    let digits = if s.len() > 0 && s[0] == '+' {
        s.skip(1)
    } else {
        s
    };
    if digits.len() > 0 && all_dec_digits(digits) && dec_val(digits) <= usize::MAX {
        Some(dec_val(digits) as usize)
    } else {
        None
    }
}

/// Parse a string as an unsigned decimal integer.
pub fn parse_usize(s: &str) -> (r: Option<usize>)
    ensures
        r == parse_usize_spec(s@),
{
    let cs = chars_of(s);
    let from: usize = if cs.len() > 0 && cs[0] == '+' {
        1
    } else {
        0
    };
    proof {
        if from == 1 {
            assert(cs@.skip(1) =~= s@.skip(1));
        } else {
            assert(cs@.skip(0) =~= s@);
        }
    }
    let ghost d: Seq<char> = if s@.len() > 0 && s@[0] == '+' {
        s@.skip(1)
    } else {
        s@
    };
    proof {
        assert(cs@.skip(from as int) == d);
    }
    match parse_u64_digits(&cs, from) {
        None => {
            proof {
                assert(parse_u64_spec(d) is None);
                assert(parse_usize_spec(s@) is None);
            }
            None
        },
        Some(v) => {
            proof {
                lemma_dec_val_nonneg(d);
                assert(d.len() > 0 && all_dec_digits(d) && dec_val(d) == v as int);
            }
            if v <= usize::MAX as u64 {
                Some(v as usize)
            } else {
                None
            }
        },
    }
}

/// What parsing a signed decimal integer from a token yields, mirroring
/// 32-bit integer parsing from a string: an optional sign, then at least one
/// digit, and a value in range.
pub open spec fn parse_i32_spec(s: Seq<char>) -> Option<i32> {
    let neg = s.len() > 0 && s[0] == '-';
    let digits = if s.len() > 0 && (s[0] == '-' || s[0] == '+') {
        s.skip(1)
    } else {
        s
    };
    if digits.len() > 0 && all_dec_digits(digits) {
        if neg {
            if -dec_val(digits) >= i32::MIN {
                Some((-dec_val(digits)) as i32)
            } else {
                None
            }
        } else {
            if dec_val(digits) <= i32::MAX {
                Some(dec_val(digits) as i32)
            } else {
                None
            }
        }
    } else {
        None
    }
}

/// Parse a string as a signed 32-bit decimal integer.
pub fn parse_i32(s: &str) -> (r: Option<i32>)
    ensures
        r == parse_i32_spec(s@),
{
    let cs = chars_of(s);
    let neg = cs.len() > 0 && cs[0] == '-';
    let from: usize = if cs.len() > 0 && (cs[0] == '-' || cs[0] == '+') {
        1
    } else {
        0
    };
    proof {
        if from == 1 {
            assert(cs@.skip(1) =~= s@.skip(1));
        } else {
            assert(cs@.skip(0) =~= s@);
        }
    }
    let ghost d: Seq<char> = if s@.len() > 0 && (s@[0] == '-' || s@[0] == '+') {
        s@.skip(1)
    } else {
        s@
    };
    proof {
        assert(cs@.skip(from as int) == d);
    }
    match parse_u64_digits(&cs, from) {
        None => None,
        Some(v) => {
            proof {
                lemma_dec_val_nonneg(d);
                assert(d.len() > 0 && all_dec_digits(d) && dec_val(d) == v as int);
            }
            if neg {
                if v <= 2147483648u64 {
                    Some((-(v as i64)) as i32)
                } else {
                    None
                }
            } else {
                if v <= 2147483647u64 {
                    Some(v as i32)
                } else {
                    None
                }
            }
        },
    }
}

} // verus!
