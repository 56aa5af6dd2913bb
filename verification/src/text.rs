//! Small verified text helpers shared by the URL builders, the report
//! formatter and the configuration codec: decimal rendering of integers,
//! percent-encoding of ASCII text, and prefix matching.

use vstd::prelude::*;
use vstd::string::StrSliceExecFns;

verus! {

/// Relies on `String::push` of std: appends the given character to the end of
/// the string.
pub assume_specification[ String::push ](s: &mut String, ch: char)
    ensures
        final(s)@ == old(s)@.push(ch),
;

pub open spec fn spec_digit_char(d: int) -> char {
    if d == 0 {
        '0'
    } else if d == 1 {
        '1'
    } else if d == 2 {
        '2'
    } else if d == 3 {
        '3'
    } else if d == 4 {
        '4'
    } else if d == 5 {
        '5'
    } else if d == 6 {
        '6'
    } else if d == 7 {
        '7'
    } else if d == 8 {
        '8'
    } else {
        '9'
    }
}

pub fn digit_char(d: u64) -> (c: char)
    requires
        d < 10,
    ensures
        c == spec_digit_char(d as int),
{
    if d == 0 {
        '0'
    } else if d == 1 {
        '1'
    } else if d == 2 {
        '2'
    } else if d == 3 {
        '3'
    } else if d == 4 {
        '4'
    } else if d == 5 {
        '5'
    } else if d == 6 {
        '6'
    } else if d == 7 {
        '7'
    } else if d == 8 {
        '8'
    } else {
        '9'
    }
}

/// The usual decimal rendering of a natural number, most significant digit
/// first, with no leading zeros.
pub open spec fn spec_u64_dec(n: nat) -> Seq<char>
    decreases n,
{
    if n < 10 {
        seq![spec_digit_char(n as int)]
    } else {
        spec_u64_dec(n / 10).push(spec_digit_char((n % 10) as int))
    }
}

pub fn u64_dec(n: u64) -> (r: String)
    ensures
        r@ == spec_u64_dec(n as nat),
    decreases n,
{
    if n < 10 {
        let mut s = String::new();
        s.push(digit_char(n));
        proof {
            assert(s@ =~= spec_u64_dec(n as nat));
        }
        s
    } else {
        let mut s = u64_dec(n / 10);
        s.push(digit_char(n % 10));
        s
    }
}

/// Decimal rendering of a signed number: a minus sign, where needed, before
/// the rendering of the magnitude.
pub open spec fn spec_i64_dec(n: int) -> Seq<char> {
    if n < 0 {
        seq!['-'] + spec_u64_dec((-n) as nat)
    } else {
        spec_u64_dec(n as nat)
    }
}

pub fn i64_dec(n: i64) -> (r: String)
    ensures
        r@ == spec_i64_dec(n as int),
{
    if n >= 0 {
        u64_dec(n as u64)
    } else {
        let mag: u64 = if n == i64::MIN {
            9223372036854775808u64
        } else {
            (-n) as u64
        };
        let mut s = String::new();
        s.push('-');
        let digits = u64_dec(mag);
        s.append(digits.as_str());
        proof {
            assert(s@ =~= spec_i64_dec(n as int));
        }
        s
    }
}

pub open spec fn spec_hex_digit(d: int) -> char {
    if d < 10 {
        spec_digit_char(d)
    } else if d == 10 {
        'A'
    } else if d == 11 {
        'B'
    } else if d == 12 {
        'C'
    } else if d == 13 {
        'D'
    } else if d == 14 {
        'E'
    } else {
        'F'
    }
}

pub fn hex_digit(d: u32) -> (c: char)
    requires
        d < 16,
    ensures
        c == spec_hex_digit(d as int),
{
    if d < 10 {
        digit_char(d as u64)
    } else if d == 10 {
        'A'
    } else if d == 11 {
        'B'
    } else if d == 12 {
        'C'
    } else if d == 13 {
        'D'
    } else if d == 14 {
        'E'
    } else {
        'F'
    }
}

/// The characters that percent-encoding leaves as they are: ASCII letters and
/// digits, `-`, `_`, `.` and `~`.
pub open spec fn is_unreserved_char(c: char) -> bool {
    ||| ('0' as u32) <= (c as u32) && (c as u32) <= ('9' as u32)
    ||| ('a' as u32) <= (c as u32) && (c as u32) <= ('z' as u32)
    ||| ('A' as u32) <= (c as u32) && (c as u32) <= ('Z' as u32)
    ||| c == '-'
    ||| c == '_'
    ||| c == '.'
    ||| c == '~'
}

/// Percent-encoding of one ASCII character: itself when unreserved, otherwise
/// `%` followed by two uppercase hex digits of its code.
pub open spec fn spec_percent_encode_char(c: char) -> Seq<char> {
    if is_unreserved_char(c) {
        seq![c]
    } else {
        seq!['%', spec_hex_digit((c as u32) as int / 16), spec_hex_digit((c as u32) as int % 16)]
    }
}

/// Percent-encoding of ASCII text, character by character.
pub open spec fn spec_percent_encode(s: Seq<char>) -> Seq<char>
    decreases s.len(),
{
    if s.len() == 0 {
        Seq::empty()
    } else {
        spec_percent_encode_char(s[0]) + spec_percent_encode(s.skip(1))
    }
}

pub fn is_unreserved(c: char) -> (b: bool)
    ensures
        b == is_unreserved_char(c),
{
    let code = c as u32;
    (('0' as u32) <= code && code <= ('9' as u32)) || (('a' as u32) <= code && code <= ('z' as u32))
        || (('A' as u32) <= code && code <= ('Z' as u32)) || c == '-' || c == '_' || c == '.' || c
        == '~'
}

proof fn lemma_skip_head(s: Seq<char>, i: int)
    requires
        0 <= i < s.len(),
    ensures
        s.skip(i).len() == s.len() - i,
        s.skip(i)[0] == s[i],
        s.skip(i).skip(1) == s.skip(i + 1),
{
    assert(s.skip(i).skip(1) =~= s.skip(i + 1));
}

pub fn percent_encode(s: &str) -> (r: String)
    requires
        s.is_ascii(),
    ensures
        r@ == spec_percent_encode(s@),
{
    let n = s.unicode_len();
    let mut out = String::new();
    let mut i: usize = 0;
    proof {
        assert(s@.skip(0) =~= s@);
        assert(out@ + spec_percent_encode(s@) =~= spec_percent_encode(s@));
    }
    while i < n
        invariant
            n == s@.len(),
            i <= n,
            s.is_ascii(),
            out@ + spec_percent_encode(s@.skip(i as int)) == spec_percent_encode(s@),
        decreases n - i,
    {
        let c = s.get_char(i);
        proof {
            lemma_skip_head(s@, i as int);
            assert(spec_percent_encode(s@.skip(i as int)) == spec_percent_encode_char(c)
                + spec_percent_encode(s@.skip(i as int + 1)));
        }
        let ghost prev = out@;
        if is_unreserved(c) {
            out.push(c);
            proof {
                assert(out@ =~= prev + spec_percent_encode_char(c));
            }
        } else {
            let code = c as u32;
            assert(code < 128);
            out.push('%');
            out.push(hex_digit(code / 16));
            out.push(hex_digit(code % 16));
            proof {
                assert(out@ =~= prev + spec_percent_encode_char(c));
            }
        }
        proof {
            assert(out@ + spec_percent_encode(s@.skip(i as int + 1)) =~= (prev
                + spec_percent_encode_char(c)) + spec_percent_encode(s@.skip(i as int + 1)));
            assert((prev + spec_percent_encode_char(c)) + spec_percent_encode(
                s@.skip(i as int + 1),
            ) =~= prev + (spec_percent_encode_char(c) + spec_percent_encode(
                s@.skip(i as int + 1),
            )));
        }
        i = i + 1;
    }
    proof {
        assert(s@.skip(n as int) =~= Seq::<char>::empty());
        assert(out@ =~= out@ + Seq::<char>::empty());
    }
    out
}

/// `n` copies of one character.
pub open spec fn spec_repeat_char(c: char, n: int) -> Seq<char> {
    Seq::new(
        if n <= 0 {
            0
        } else {
            n as nat
        },
        |i: int| c,
    )
}

pub fn repeat_char(c: char, n: usize) -> (r: String)
    ensures
        r@ == spec_repeat_char(c, n as int),
{
    let mut s = String::new();
    let mut i: usize = 0;
    proof {
        assert(s@ =~= spec_repeat_char(c, 0));
    }
    while i < n
        invariant
            i <= n,
            s@ == spec_repeat_char(c, i as int),
        decreases n - i,
    {
        s.push(c);
        i = i + 1;
        proof {
            assert(s@ =~= spec_repeat_char(c, i as int));
        }
    }
    s
}

/// `s` padded with spaces on the left up to width `w`; text already that
/// wide stays as it is.
pub open spec fn spec_pad_left(s: Seq<char>, w: int) -> Seq<char> {
    if s.len() >= w {
        s
    } else {
        spec_repeat_char(' ', w - s.len()) + s
    }
}

/// `s` padded with spaces on the right up to width `w`.
pub open spec fn spec_pad_right(s: Seq<char>, w: int) -> Seq<char> {
    if s.len() >= w {
        s
    } else {
        s + spec_repeat_char(' ', w - s.len())
    }
}

pub fn pad_left(s: &str, w: usize) -> (r: String)
    ensures
        r@ == spec_pad_left(s@, w as int),
{
    let len = s.unicode_len();
    if len >= w {
        String::from_str(s)
    } else {
        let mut r = repeat_char(' ', w - len);
        r.append(s);
        r
    }
}

pub fn pad_right(s: &str, w: usize) -> (r: String)
    ensures
        r@ == spec_pad_right(s@, w as int),
{
    let len = s.unicode_len();
    let mut r = String::from_str(s);
    if len < w {
        let fill = repeat_char(' ', w - len);
        r.append(fill.as_str());
    } else {
        proof {
            assert(r@ =~= spec_pad_right(s@, w as int));
        }
    }
    r
}

pub open spec fn is_digit(c: char) -> bool {
    ('0' as u32) <= (c as u32) && (c as u32) <= ('9' as u32)
}

/// The numeric value of a decimal digit character.
pub open spec fn digit_of(c: char) -> int {
    (c as u32) - ('0' as u32)
}

pub fn is_digit_exec(c: char) -> (b: bool)
    ensures
        b == is_digit(c),
{
    ('0' as u32) <= (c as u32) && (c as u32) <= ('9' as u32)
}

pub fn digit_value(c: char) -> (r: u8)
    requires
        is_digit(c),
    ensures
        r as int == digit_of(c),
        r < 10,
{
    ((c as u32) - ('0' as u32)) as u8
}

/// True when `p` occurs in `s` starting at position `i`.
pub open spec fn has_prefix_at(s: Seq<char>, i: int, p: Seq<char>) -> bool {
    0 <= i && i + p.len() <= s.len() && s.subrange(i, i + p.len()) == p
}

pub fn match_at(s: &str, i: usize, p: &str) -> (b: bool)
    requires
        i <= s@.len(),
    ensures
        b == has_prefix_at(s@, i as int, p@),
{
    let slen = s.unicode_len();
    let plen = p.unicode_len();
    if plen > slen - i {
        proof {
            assert(!has_prefix_at(s@, i as int, p@));
        }
        return false;
    }
    let mut j: usize = 0;
    while j < plen
        invariant
            i + plen <= slen,
            slen == s@.len(),
            plen == p@.len(),
            j <= plen,
            forall|k: int| 0 <= k < j ==> s@[i + k] == p@[k],
        decreases plen - j,
    {
        if s.get_char(i + j) != p.get_char(j) {
            proof {
                assert(s@.subrange(i as int, i as int + p@.len())[j as int] == s@[i + j]);
            }
            return false;
        }
        j = j + 1;
    }
    proof {
        assert(s@.subrange(i as int, i as int + p@.len()) =~= p@);
    }
    true
}

} // verus!
