//! The decision core of the interactive number prompt: trimming an input
//! line, reading it as an unsigned number, and checking it against the
//! offered range. The reading and re-prompting themselves are the caller's
//! business.

use crate::text::digit_of;
use crate::text::digit_value;
use crate::text::is_digit;
use crate::text::is_digit_exec;
use vstd::prelude::*;
use vstd::string::StrSliceExecFns;

verus! {

pub open spec fn is_space_char(c: char) -> bool {
    c == ' ' || c == '\t' || c == '\n' || c == '\r'
}

pub open spec fn spec_trim_start(s: Seq<char>) -> Seq<char>
    decreases s.len(),
{
    if s.len() > 0 && is_space_char(s[0]) {
        spec_trim_start(s.skip(1))
    } else {
        s
    }
}

pub open spec fn spec_trim_end(s: Seq<char>) -> Seq<char>
    decreases s.len(),
{
    if s.len() > 0 && is_space_char(s[s.len() - 1]) {
        spec_trim_end(s.take(s.len() - 1))
    } else {
        s
    }
}

/// The line with leading and trailing whitespace removed.
pub open spec fn spec_trim(s: Seq<char>) -> Seq<char> {
    spec_trim_end(spec_trim_start(s))
}

proof fn lemma_trim_start_at(s: Seq<char>, lo: int)
    requires
        0 <= lo <= s.len(),
        forall|k: int| 0 <= k < lo ==> is_space_char(#[trigger] s[k]),
        lo < s.len() ==> !is_space_char(s[lo]),
    ensures
        spec_trim_start(s) == s.skip(lo),
    decreases lo,
{
    if lo == 0 {
        assert(s.skip(0) =~= s);
    } else {
        lemma_trim_start_at(s.skip(1), lo - 1);
        assert(s.skip(1).skip(lo - 1) =~= s.skip(lo));
    }
}

proof fn lemma_trim_end_at(s: Seq<char>, hi: int)
    requires
        0 <= hi <= s.len(),
        forall|k: int| hi <= k < s.len() ==> is_space_char(#[trigger] s[k]),
        hi > 0 ==> !is_space_char(s[hi - 1]),
    ensures
        spec_trim_end(s) == s.take(hi),
    decreases s.len() - hi,
{
    if hi == s.len() {
        assert(s.take(hi) =~= s);
    } else {
        lemma_trim_end_at(s.take(s.len() - 1), hi);
        assert(s.take(s.len() - 1).take(hi) =~= s.take(hi));
    }
}

/// The value of a run of decimal digits, most significant first.
pub open spec fn spec_digits_value(t: Seq<char>) -> int
    decreases t.len(),
{
    if t.len() == 0 {
        0
    } else {
        spec_digits_value(t.take(t.len() - 1)) * 10 + digit_of(t[t.len() - 1])
    }
}

pub open spec fn spec_all_digits(t: Seq<char>) -> bool {
    forall|k: int| 0 <= k < t.len() ==> is_digit(#[trigger] t[k])
}

proof fn lemma_digits_value_nonneg(t: Seq<char>)
    requires
        spec_all_digits(t),
    ensures
        spec_digits_value(t) >= 0,
    decreases t.len(),
{
    if t.len() > 0 {
        lemma_digits_value_nonneg(t.take(t.len() - 1));
    }
}

proof fn lemma_digits_value_prefix_le(t: Seq<char>, i: int)
    requires
        0 <= i <= t.len(),
        spec_all_digits(t),
    ensures
        spec_digits_value(t.take(i)) <= spec_digits_value(t),
    decreases t.len() - i,
{
    if i == t.len() {
        assert(t.take(i) =~= t);
    } else {
        lemma_digits_value_prefix_le(t, i + 1);
        assert(t.take(i + 1).take(i) =~= t.take(i));
        assert(spec_digits_value(t.take(i + 1)) == spec_digits_value(t.take(i)) * 10 + digit_of(
            t[i],
        ));
        lemma_digits_value_nonneg(t.take(i));
    }
}

/// What `usize` parsing accepts of a trimmed line: an optional leading `+`,
/// then at least one digit, with the value within the machine word.
pub open spec fn spec_parse_usize(t: Seq<char>) -> Option<int> {
    let digits = if t.len() > 0 && t[0] == '+' {
        t.skip(1)
    } else {
        t
    };
    if digits.len() > 0 && spec_all_digits(digits) && spec_digits_value(digits) <= usize::MAX {
        Some(spec_digits_value(digits))
    } else {
        None
    }
}

fn is_space(c: char) -> (b: bool)
    ensures
        b == is_space_char(c),
{
    c == ' ' || c == '\t' || c == '\n' || c == '\r'
}

/// Reads an input line as the number prompt does: trimmed, an optional `+`
/// sign, digits, and a value that fits the machine word.
pub fn parse_usize_line(s: &str) -> (r: Option<usize>)
    ensures
        match r {
            Some(v) => spec_parse_usize(spec_trim(s@)) == Some(v as int),
            None => spec_parse_usize(spec_trim(s@)) is None,
        },
{
    let n = s.unicode_len();
    let mut lo: usize = 0;
    while lo < n && is_space(s.get_char(lo))
        invariant
            n == s@.len(),
            lo <= n,
            forall|k: int| 0 <= k < lo ==> is_space_char(#[trigger] s@[k]),
        decreases n - lo,
    {
        lo = lo + 1;
    }
    let mut hi: usize = n;
    while hi > lo && is_space(s.get_char(hi - 1))
        invariant
            n == s@.len(),
            lo <= hi <= n,
            forall|k: int| hi <= k < n ==> is_space_char(#[trigger] s@[k]),
        decreases hi,
    {
        hi = hi - 1;
    }
    proof {
        lemma_trim_start_at(s@, lo as int);
        assert forall|k: int| hi - lo <= k < s@.skip(lo as int).len() implies is_space_char(
            #[trigger] s@.skip(lo as int)[k],
        ) by {
            assert(s@.skip(lo as int)[k] == s@[lo + k]);
        }
        lemma_trim_end_at(s@.skip(lo as int), hi - lo);
        assert(s@.skip(lo as int).take(hi - lo) =~= s@.subrange(lo as int, hi as int));
        assert(spec_trim(s@) == s@.subrange(lo as int, hi as int));
    }
    let ghost t = spec_trim(s@);
    let mut p: usize = lo;
    if p < hi && s.get_char(p) == '+' {
        p = p + 1;
    }
    let ghost digits = s@.subrange(p as int, hi as int);
    proof {
        if lo < hi && s@[lo as int] == '+' {
            assert(t.len() > 0 && t[0] == '+');
            assert(t.skip(1) =~= digits);
        } else {
            assert(t =~= digits);
        }
        assert(spec_parse_usize(spec_trim(s@)) == (if digits.len() > 0 && spec_all_digits(digits)
            && spec_digits_value(digits) <= usize::MAX {
            Some(spec_digits_value(digits))
        } else {
            None::<int>
        }));
    }
    if p == hi {
        return None;
    }
    let mut acc: usize = 0;
    let mut i: usize = p;
    while i < hi
        invariant
            n == s@.len(),
            lo <= p <= i <= hi <= n,
            digits == s@.subrange(p as int, hi as int),
            spec_parse_usize(spec_trim(s@)) == (if digits.len() > 0 && spec_all_digits(digits)
                && spec_digits_value(digits) <= usize::MAX {
                Some(spec_digits_value(digits))
            } else {
                None::<int>
            }),
            digits.len() > 0,
            forall|k: int| p <= k < i ==> is_digit(#[trigger] s@[k]),
            acc == spec_digits_value(s@.subrange(p as int, i as int)),
        decreases hi - i,
    {
        let c = s.get_char(i);
        if !is_digit_exec(c) {
            proof {
                assert(digits[i - p] == s@[i as int]);
                assert(!spec_all_digits(digits));
            }
            return None;
        }
        let d = digit_value(c);
        proof {
            assert(s@.subrange(p as int, i as int + 1).take(i - p) =~= s@.subrange(
                p as int,
                i as int,
            ));
            assert(spec_digits_value(s@.subrange(p as int, i as int + 1)) == acc * 10 + digit_of(
                s@[i as int],
            ));
        }
        if acc > (usize::MAX - d as usize) / 10 {
            proof {
                let m = usize::MAX - d;
                assert(m / 10 * 10 <= m < m / 10 * 10 + 10);
                assert(acc * 10 + d > usize::MAX);
                if spec_all_digits(digits) {
                    assert(s@.subrange(p as int, i as int + 1) =~= digits.take(i + 1 - p));
                    lemma_digits_value_prefix_le(digits, i + 1 - p);
                    assert(spec_digits_value(digits) > usize::MAX);
                }
            }
            return None;
        }
        acc = acc * 10 + d as usize;
        i = i + 1;
    }
    proof {
        assert(s@.subrange(p as int, i as int) =~= digits);
        assert forall|k: int| 0 <= k < digits.len() implies is_digit(#[trigger] digits[k]) by {
            assert(digits[k] == s@[p + k]);
        }
    }
    Some(acc)
}

/// What the number prompt does with one input line: the trimmed line read as
/// a number, accepted exactly when it lies between `min` and `max`.
pub fn evaluate_choice(line: &str, min: usize, max: usize) -> (r: Option<usize>)
    ensures
        match r {
            Some(v) => spec_parse_usize(spec_trim(line@)) == Some(v as int) && min <= v <= max,
            None => match spec_parse_usize(spec_trim(line@)) {
                Some(v) => !(min <= v <= max),
                None => true,
            },
        },
{
    match parse_usize_line(line) {
        Some(v) => if min <= v && v <= max {
            Some(v)
        } else {
            None
        },
        None => None,
    }
}

} // verus!
