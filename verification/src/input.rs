//! Parsing of coordinate input lines: comma-separated non-negative decimal
//! integers, each with optional surrounding ASCII whitespace. A line such as
//! `"1, 2"` yields the pair of coordinates handed to the board engine.

use vstd::prelude::*;
use vstd::string::*;

use crate::state::GameError;

verus! {

/// Whitespace accepted around a number.
pub open spec fn is_ws(c: char) -> bool {
    c == ' ' || c == '\t' || c == '\r' || c == '\n'
}

/// A decimal digit.
pub open spec fn is_digit(c: char) -> bool {
    48 <= c as u32 <= 57
}

/// The value of one digit character; non-digits count as zero so the
/// function stays total.
pub open spec fn digit_char_val(c: char) -> nat {
    if is_digit(c) {
        (c as u32 - 48) as nat
    } else {
        0
    }
}

/// `s` without its leading whitespace.
pub open spec fn strip_leading(s: Seq<char>) -> Seq<char>
    decreases s.len(),
{
    if s.len() > 0 && is_ws(s[0]) {
        strip_leading(s.drop_first())
    } else {
        s
    }
}

/// `s` without its trailing whitespace.
pub open spec fn strip_trailing(s: Seq<char>) -> Seq<char>
    decreases s.len(),
{
    if s.len() > 0 && is_ws(s.last()) {
        strip_trailing(s.drop_last())
    } else {
        s
    }
}

/// `s` without leading or trailing whitespace.
pub open spec fn trimmed(s: Seq<char>) -> Seq<char> {
    strip_trailing(strip_leading(s))
}

/// Every character of `s` is a decimal digit.
pub open spec fn all_digits(s: Seq<char>) -> bool {
    forall|i: int| 0 <= i < s.len() ==> is_digit(#[trigger] s[i])
}

/// The unbounded value of a digit string, most significant digit first.
pub open spec fn digits_val(s: Seq<char>) -> nat
    decreases s.len(),
{
    if s.len() == 0 {
        0
    } else {
        digits_val(s.drop_last()) * 10 + digit_char_val(s.last())
    }
}

/// The parse of one item: `Some` exactly when, after trimming whitespace,
/// one or more digits remain and their value fits in `usize`.
pub open spec fn parse_number_spec(s: Seq<char>) -> Option<usize> {
    let t = trimmed(s);
    if t.len() > 0 && all_digits(t) && digits_val(t) <= usize::MAX {
        Some(digits_val(t) as usize)
    } else {
        None
    }
}

/// The index of the first comma in `s`, or `s.len()` if there is none.
pub open spec fn first_comma(s: Seq<char>) -> int
    decreases s.len(),
{
    if s.len() == 0 {
        0
    } else if s[0] == ',' {
        0
    } else {
        1 + first_comma(s.drop_first())
    }
}

/// The parse of a whole line: the comma-separated items in order, `Some`
/// exactly when every item parses. Splitting on commas means an empty line
/// is one (empty, hence failing) item, and `"1,"` has a failing second item.
pub open spec fn parse_list_spec(s: Seq<char>) -> Option<Seq<usize>>
    decreases s.len(),
{
    let k = first_comma(s);
    if !(0 <= k < s.len()) {
        match parse_number_spec(s) {
            Some(v) => Some(seq![v]),
            None => None,
        }
    } else {
        match parse_number_spec(s.take(k)) {
            Some(v) => match parse_list_spec(s.skip(k + 1)) {
                Some(rest) => Some(seq![v] + rest),
                None => None,
            },
            None => None,
        }
    }
}

/// The coordinates read from a line: defined exactly when the line parses
/// to two numbers, taken as (x, y) in that order.
pub open spec fn spec_coords(s: Seq<char>) -> Option<(usize, usize)> {
    match parse_list_spec(s) {
        Some(vs) => if vs.len() == 2 {
            Some((vs[0], vs[1]))
        } else {
            None
        },
        None => None,
    }
}

/// The index of the first comma of `s`, or its length if there is none.
fn find_comma(s: &str) -> (r: usize)
    ensures
        r as int == first_comma(s@),
        r <= s@.len(),
    decreases s@.len(),
{
    let n = s.unicode_len();
    if n == 0 {
        return 0;
    }
    if s.get_char(0) == ',' {
        0
    } else {
        let rest = s.substring_char(1, n);
        proof {
            assert(rest@ =~= s@.drop_first());
        }
        let k = find_comma(rest);
        1 + k
    }
}

/// `s` without its leading whitespace.
fn trim_leading(s: &str) -> (r: &str)
    ensures
        r@ == strip_leading(s@),
    decreases s@.len(),
{
    let n = s.unicode_len();
    if n > 0 {
        let c = s.get_char(0);
        if c == ' ' || c == '\t' || c == '\r' || c == '\n' {
            let rest = s.substring_char(1, n);
            proof {
                assert(rest@ =~= s@.drop_first());
            }
            return trim_leading(rest);
        }
    }
    s
}

/// `s` without its trailing whitespace.
fn trim_trailing(s: &str) -> (r: &str)
    ensures
        r@ == strip_trailing(s@),
    decreases s@.len(),
{
    let n = s.unicode_len();
    if n > 0 {
        let c = s.get_char(n - 1);
        if c == ' ' || c == '\t' || c == '\r' || c == '\n' {
            let rest = s.substring_char(0, n - 1);
            proof {
                assert(rest@ =~= s@.drop_last());
            }
            return trim_trailing(rest);
        }
    }
    s
}

/// Whether every character of `s` is a decimal digit.
fn check_digits(s: &str) -> (r: bool)
    ensures
        r == all_digits(s@),
{
    let n = s.unicode_len();
    let mut i: usize = 0;
    while i < n
        invariant
            i <= n,
            n == s@.len(),
            forall|j: int| 0 <= j < i ==> is_digit(#[trigger] s@[j]),
        decreases n - i,
    {
        let c = s.get_char(i);
        let u = c as u32;
        if u < 48 || u > 57 {
            assert(!is_digit(s@[i as int]));
            return false;
        }
        i += 1;
    }
    true
}

/// The value of a digit string, or `None` when it exceeds `usize::MAX`.
fn digits_value(s: &str) -> (r: Option<usize>)
    requires
        all_digits(s@),
    ensures
        match r {
            Some(v) => v == digits_val(s@),
            None => digits_val(s@) > usize::MAX,
        },
    decreases s@.len(),
{
    let n = s.unicode_len();
    if n == 0 {
        return Some(0);
    }
    let prefix = s.substring_char(0, n - 1);
    proof {
        assert(prefix@ =~= s@.drop_last());
    }
    let c = s.get_char(n - 1);
    let d = (c as u32 - 48) as usize;
    assert(d == digit_char_val(s@.last()));
    match digits_value(prefix) {
        None => None,
        Some(pv) => match pv.checked_mul(10) {
            None => None,
            Some(m) => m.checked_add(d),
        },
    }
}

/// Parses one trimmed decimal item.
fn parse_number(s: &str) -> (r: Option<usize>)
    ensures
        r == parse_number_spec(s@),
{
    let t = trim_trailing(trim_leading(s));
    if t.unicode_len() == 0 {
        return None;
    }
    if !check_digits(t) {
        return None;
    }
    digits_value(t)
}

/// Splits `input` on commas and parses every item as a non-negative decimal
/// integer with optional surrounding whitespace; any item that fails to
/// parse rejects the whole line.
pub fn parse_list(input: &str) -> (r: Result<Vec<usize>, GameError>)
    ensures
        match parse_list_spec(input@) {
            Some(vs) => r matches Ok(v) && v@ == vs,
            None => r == Err::<Vec<usize>, GameError>(GameError::InputParseError),
        },
    decreases input@.len(),
{
    let n = input.unicode_len();
    let k = find_comma(input);
    if k == n {
        match parse_number(input) {
            Some(v) => {
                let mut vs: Vec<usize> = Vec::new();
                vs.push(v);
                proof {
                    assert(vs@ =~= seq![v]);
                }
                Ok(vs)
            },
            None => Err(GameError::InputParseError),
        }
    } else {
        let item = input.substring_char(0, k);
        let rest = input.substring_char(k + 1, n);
        proof {
            assert(item@ =~= input@.take(k as int));
            assert(rest@ =~= input@.skip(k as int + 1));
        }
        match parse_number(item) {
            None => Err(GameError::InputParseError),
            Some(v) => match parse_list(rest) {
                Err(e) => Err(e),
                Ok(mut vs) => {
                    let ghost tail = vs@;
                    vs.insert(0, v);
                    proof {
                        assert(vs@ =~= seq![v] + tail);
                    }
                    Ok(vs)
                },
            },
        }
    }
}

/// Interprets one input line as a pair of board coordinates: the line must
/// parse to exactly two numbers, returned as (x, y) in input order.
pub fn input_coords(line: &str) -> (r: Result<(usize, usize), GameError>)
    ensures
        match spec_coords(line@) {
            Some(c) => r == Ok::<(usize, usize), GameError>(c),
            None => r == Err::<(usize, usize), GameError>(GameError::InputParseError),
        },
{
    match parse_list(line) {
        Err(e) => Err(e),
        Ok(vs) => {
            if vs.len() == 2 {
                let x = vs[0];
                let y = vs[1];
                Ok((x, y))
            } else {
                Err(GameError::InputParseError)
            }
        },
    }
}

} // verus!
