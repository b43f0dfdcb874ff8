//! Text primitives shared by the note parsers: Unicode case mapping and
//! numeric classification (from std), decimal `i8` parsing and printing,
//! and splitting a string at a character position.

use vstd::prelude::*;
use vstd::utf8::*;
use vstd::string::*;

verus! {

/// The Unicode uppercase form of a string, as `str::to_uppercase` computes it.
pub uninterp spec fn uppercase(s: Seq<char>) -> Seq<char>;

/// Whether `char::is_numeric` holds of a character (Unicode numeric categories).
pub uninterp spec fn is_numeric_char(c: char) -> bool;

/// Whether a character is in the ASCII range.
pub open spec fn is_ascii_char(c: char) -> bool {
    c <= '\u{7f}'
}

/// The ASCII uppercase of a character: `a`..`z` become `A`..`Z`, any other
/// character is kept.
pub open spec fn ascii_upper(c: char) -> char {
    if 'a' <= c && c <= 'z' {
        ((c as int) - 32) as char
    } else {
        c
    }
}

/// Whether every character of `s` is in the ASCII range.
pub open spec fn all_ascii(s: Seq<char>) -> bool {
    forall|i: int| 0 <= i < s.len() ==> is_ascii_char(#[trigger] s[i])
}

/// The ASCII uppercase of a string, character by character.
pub open spec fn ascii_uppercase(s: Seq<char>) -> Seq<char> {
    s.map_values(|c: char| ascii_upper(c))
}

/// Calls `str::to_uppercase`. Its result is the string named `uppercase(s@)`.
/// Of that name only the ASCII case is stated: on a string of ASCII
/// characters, `a`..`z` become `A`..`Z` one for one and every other character
/// is kept (Unicode's uppercase mapping of the ASCII range). The Unicode case
/// tables for other characters are not written out here.
#[verifier::external_body]
pub(crate) fn to_uppercase(s: &str) -> (r: String)
    ensures
        r@ == uppercase(s@),
        all_ascii(s@) ==> r@ == ascii_uppercase(s@),
{
    s.to_uppercase()
}

/// Calls `char::is_numeric`. Its result is named `is_numeric_char(c)`. The
/// documentation defines numeric as the Unicode general categories Nd, Nl and
/// No; of the ASCII range only the digits `0`..`9` fall in them, and that much
/// is stated: the ASCII digits are numeric, and no other ASCII character is.
/// Characters outside ASCII are left to the name.
#[verifier::external_body]
pub(crate) fn char_is_numeric(c: char) -> (b: bool)
    ensures
        b == is_numeric_char(c),
        ('0' <= c && c <= '9') ==> b,
        is_ascii_char(c) ==> (b <==> ('0' <= c && c <= '9')),
{
    c.is_numeric()
}

/// A character that marks where an octave number begins in a note name.
pub open spec fn is_octave_char(c: char) -> bool {
    is_numeric_char(c) || c == '-'
}

/// Index of the first octave character of `s` at or after `i`.
pub open spec fn octave_start_from(s: Seq<char>, i: int) -> Option<int>
    decreases s.len() - i,
{
    if i < 0 || i >= s.len() {
        None
    } else if is_octave_char(s[i]) {
        Some(i)
    } else {
        octave_start_from(s, i + 1)
    }
}

/// Index of the first octave character of `s`, if any.
pub open spec fn octave_start(s: Seq<char>) -> Option<int> {
    octave_start_from(s, 0)
}

/// An octave character in an ASCII note name: a digit or a minus sign.
pub open spec fn is_ascii_octave_char(c: char) -> bool {
    ('0' <= c && c <= '9') || c == '-'
}

/// Index of the first ASCII digit or minus sign of `s` at or after `i`.
pub open spec fn ascii_octave_start_from(s: Seq<char>, i: int) -> Option<int>
    decreases s.len() - i,
{
    if i < 0 || i >= s.len() {
        None
    } else if is_ascii_octave_char(s[i]) {
        Some(i)
    } else {
        ascii_octave_start_from(s, i + 1)
    }
}

/// Index of the first ASCII digit or minus sign of `s`, if any.
pub open spec fn ascii_octave_start(s: Seq<char>) -> Option<int> {
    ascii_octave_start_from(s, 0)
}

proof fn lemma_octave_start_from(s: Seq<char>, i: int)
    requires
        0 <= i <= s.len(),
    ensures
        match octave_start_from(s, i) {
            Some(p) => i <= p < s.len() && is_octave_char(s[p]) && forall|k: int|
                i <= k < p ==> !is_octave_char(#[trigger] s[k]),
            None => forall|k: int| i <= k < s.len() ==> !is_octave_char(#[trigger] s[k]),
        },
    decreases s.len() - i,
{
    if i < s.len() {
        lemma_octave_start_from(s, i + 1);
    }
}

/// Finds the character index at which the octave of a note name begins:
/// the first character that is numeric or a minus sign. In an ASCII name
/// that is the first digit or minus sign.
pub fn find_octave_start(s: &str) -> (r: Option<usize>)
    ensures
        match r {
            Some(p) => octave_start(s@) == Some(p as int) && p < s@.len(),
            None => octave_start(s@) is None,
        },
        all_ascii(s@) ==> match r {
            Some(p) => ascii_octave_start(s@) == Some(p as int),
            None => ascii_octave_start(s@) is None,
        },
{
    let n = s.unicode_len();
    let mut i: usize = 0;
    proof {
        lemma_octave_start_from(s@, 0);
    }
    while i < n
        invariant
            n == s@.len(),
            i <= n,
            octave_start(s@) == octave_start_from(s@, i as int),
            all_ascii(s@) ==> ascii_octave_start(s@) == ascii_octave_start_from(s@, i as int),
        decreases n - i,
    {
        let c = s.get_char(i);
        assert(all_ascii(s@) ==> is_ascii_char(s@[i as int]));
        if char_is_numeric(c) || c == '-' {
            return Some(i);
        }
        i = i + 1;
    }
    None
}

/// The characters whose UTF-8 encoding is the given byte range of `s`.
pub open spec fn byte_range_chars(s: Seq<char>, lo: int, hi: int) -> Seq<char> {
    decode_utf8(encode_utf8(s).subrange(lo, hi))
}

/// The length in bytes of the UTF-8 encoding of `s`.
pub open spec fn encode_utf8_len(s: Seq<char>) -> int {
    encode_utf8(s).len() as int
}

/// Whether slicing `s` at byte index `pos` is allowed (a character boundary).
pub open spec fn is_boundary(s: Seq<char>, pos: int) -> bool {
    is_char_boundary(encode_utf8(s), pos)
}

/// Every character is at least NUL.
proof fn lemma_char_at_least_nul(c: char)
    ensures
        '\0' <= c,
{
}

/// In an ASCII string every byte is a character: any index up to its length
/// is a boundary, and splitting the bytes there splits the characters there.
pub(crate) proof fn lemma_ascii_split(s: Seq<char>, p: int)
    requires
        all_ascii(s),
        0 <= p,
        p <= s.len() || is_boundary(s, p),
    ensures
        encode_utf8_len(s) == s.len(),
        p <= s.len(),
        is_boundary(s, p),
        byte_range_chars(s, 0, p) == s.subrange(0, p),
        byte_range_chars(s, p, encode_utf8_len(s)) == s.subrange(p, s.len() as int),
{
    let t = s.subrange(0, p);
    let u = s.subrange(p, s.len() as int);
    assert(is_ascii_chars(s)) by {
        assert forall|i: int| 0 <= i < s.len() implies '\0' <= #[trigger] s[i] <= '\u{7f}' by {
            assert(is_ascii_char(s[i]));
            lemma_char_at_least_nul(s[i]);
        }
    }
    is_ascii_chars_encode_utf8(s);
    let e = encode_utf8(s);
    encode_utf8_valid_utf8(s);
    if p > s.len() {
        reveal_with_fuel(is_char_boundary, 1);
        assert(!is_char_boundary(e, p));
    }
    assert(is_ascii_chars(t));
    assert(is_ascii_chars(u));
    is_ascii_chars_encode_utf8(t);
    is_ascii_chars_encode_utf8(u);
    assert(e.subrange(0, p) =~= encode_utf8(t));
    assert(e.subrange(p, e.len() as int) =~= encode_utf8(u));
    encode_utf8_decode_utf8(t);
    encode_utf8_decode_utf8(u);
    if p == s.len() {
        is_char_boundary_start_end_of_seq(e);
    } else {
        is_char_boundary_iff_not_is_continuation_byte(e, p);
        assert(s[p] as u8 == e[p]);
        assert(is_ascii_char(s[p]));
    }
}

/// Splits `s` at byte index `pos`, as `&s[..pos]` and `&s[pos..]` do.
pub fn split_at_byte(s: &str, pos: usize) -> (r: (&str, &str))
    requires
        is_boundary(s@, pos as int),
    ensures
        r.0@ == byte_range_chars(s@, 0, pos as int),
        r.1@ == byte_range_chars(s@, pos as int, encode_utf8_len(s@)),
{
    let r = s.split_at(pos);
    proof {
        encode_utf8_decode_utf8(r.0@);
        encode_utf8_decode_utf8(r.1@);
    }
    r
}

/// Whether a character is an ASCII decimal digit.
pub open spec fn is_digit(c: char) -> bool {
    '0' <= c && c <= '9'
}

/// The value of an ASCII decimal digit.
pub open spec fn digit_value(c: char) -> int {
    (c as int) - ('0' as int)
}

/// The value of a sequence of decimal digits, most significant first.
pub open spec fn digits_value(s: Seq<char>) -> int
    decreases s.len(),
{
    if s.len() == 0 {
        0
    } else {
        digits_value(s.drop_last()) * 10 + digit_value(s.last())
    }
}

/// Whether every character of `s` is an ASCII digit.
pub open spec fn all_digits(s: Seq<char>) -> bool {
    forall|i: int| 0 <= i < s.len() ==> is_digit(#[trigger] s[i])
}

/// What `i8::from_str` accepts: an optional `+` or `-`, then one or more ASCII
/// digits whose signed value lies in the range of `i8`.
pub open spec fn parse_i8_spec(s: Seq<char>) -> Option<i8> {
    let negative = s.len() > 0 && s[0] == '-';
    let signed = s.len() > 0 && (s[0] == '-' || s[0] == '+');
    let digits = if signed { s.drop_first() } else { s };
    let value = if negative { -digits_value(digits) } else { digits_value(digits) };
    if digits.len() == 0 || !all_digits(digits) {
        None
    } else if -128 <= value <= 127 {
        Some(value as i8)
    } else {
        None
    }
}

proof fn lemma_digits_value_nonneg(s: Seq<char>)
    requires
        all_digits(s),
    ensures
        digits_value(s) >= 0,
    decreases s.len(),
{
    if s.len() > 0 {
        assert(all_digits(s.drop_last()));
        lemma_digits_value_nonneg(s.drop_last());
        assert(is_digit(s[s.len() - 1]));
    }
}

fn digit_of(c: char) -> (r: u32)
    requires
        is_digit(c),
    ensures
        r as int == digit_value(c),
        r <= 9,
{
    (c as u32) - ('0' as u32)
}

/// Parses a decimal `i8` as `i8::from_str` does, returning `None` where it fails.
pub fn parse_i8(s: &str) -> (r: Option<i8>)
    ensures
        r == parse_i8_spec(s@),
{
    let n = s.unicode_len();
    if n == 0 {
        return None;
    }
    let first = s.get_char(0);
    let negative = first == '-';
    let start: usize = if first == '-' || first == '+' { 1 } else { 0 };
    if start == n {
        return None;
    }
    let ghost digits = s@.subrange(start as int, n as int);
    assert(digits =~= (if start == 1 { s@.drop_first() } else { s@ }));
    // `acc` holds the value of the digits read so far, saturated at 1000.
    let mut acc: u32 = 0;
    let mut i: usize = start;
    while i < n
        invariant
            n == s@.len(),
            start <= i <= n,
            digits == s@.subrange(start as int, n as int),
            digits == (if start == 1 { s@.drop_first() } else { s@ }),
            n > 0,
            first == s@[0],
            negative == (first == '-'),
            (start == 1) == (first == '-' || first == '+'),
            all_digits(s@.subrange(start as int, i as int)),
            acc <= 1000,
            acc as int == (if digits_value(s@.subrange(start as int, i as int)) < 1000 {
                digits_value(s@.subrange(start as int, i as int))
            } else {
                1000
            }),
        decreases n - i,
    {
        let c = s.get_char(i);
        if !('0' <= c && c <= '9') {
            proof {
                assert(digits[i - start] == c);
                assert(!all_digits(digits));
            }
            return None;
        }
        let d = digit_of(c);
        let ghost prev = s@.subrange(start as int, i as int);
        let ghost next = s@.subrange(start as int, i + 1);
        proof {
            assert(next.drop_last() =~= prev);
            assert(next.last() == c);
            assert(all_digits(next));
            lemma_digits_value_nonneg(prev);
        }
        if acc >= 100 {
            acc = 1000;
            proof {
                assert(digits_value(prev) >= 100);
                assert(digits_value(next) == digits_value(prev) * 10 + d);
                assert(digits_value(next) >= 1000) by (nonlinear_arith)
                    requires digits_value(prev) >= 100, digits_value(next) == digits_value(prev) * 10 + d, d >= 0;
            }
        } else {
            let v = acc * 10 + d;
            acc = if v < 1000 { v } else { 1000 };
        }
        i = i + 1;
    }
    assert(s@.subrange(start as int, n as int) == digits);
    if negative {
        if acc <= 128 {
            let v = acc as i32;
            Some((0 - v) as i8)
        } else {
            None
        }
    } else {
        if acc <= 127 {
            Some(acc as i8)
        } else {
            None
        }
    }
}

/// The decimal digits of a natural number, most significant first.
pub open spec fn nat_decimal(n: nat) -> Seq<char>
    decreases n,
{
    if n < 10 {
        seq![(('0' as int) + n) as char]
    } else {
        nat_decimal(n / 10).push((('0' as int) + (n % 10)) as char)
    }
}

/// The decimal text of an integer, with a leading `-` when it is negative.
pub open spec fn int_decimal(v: int) -> Seq<char> {
    if v < 0 {
        seq!['-'] + nat_decimal((-v) as nat)
    } else {
        nat_decimal(v as nat)
    }
}

fn digit_text(d: u32) -> (r: &'static str)
    requires
        d <= 9,
    ensures
        r@ == seq![(('0' as int) + d) as char],
{
    proof {
        reveal_strlit("0");
        reveal_strlit("1");
        reveal_strlit("2");
        reveal_strlit("3");
        reveal_strlit("4");
        reveal_strlit("5");
        reveal_strlit("6");
        reveal_strlit("7");
        reveal_strlit("8");
        reveal_strlit("9");
    }
    match d {
        0 => "0",
        1 => "1",
        2 => "2",
        3 => "3",
        4 => "4",
        5 => "5",
        6 => "6",
        7 => "7",
        8 => "8",
        _ => "9",
    }
}

/// Writes an `i8` in decimal, as its `Display` does.
pub fn i8_to_decimal(v: i8) -> (r: String)
    ensures
        r@ == int_decimal(v as int),
{
    let mut out = String::new();
    let mag: u32 = if v < 0 {
        proof {
            reveal_strlit("-");
        }
        out.append("-");
        (0 - (v as i32)) as u32
    } else {
        v as u32
    };
    let ghost prefix = out@;
    if mag >= 100 {
        out.append(digit_text(mag / 100));
        out.append(digit_text((mag / 10) % 10));
        out.append(digit_text(mag % 10));
        proof {
            let m = mag as nat;
            assert(nat_decimal(m / 100) =~= seq![(('0' as int) + (mag / 100)) as char]);
            assert((m / 10) / 10 == m / 100);
            assert(nat_decimal(m / 10) =~= nat_decimal(m / 100).push((('0' as int) + ((m / 10) % 10)) as char));
            assert(nat_decimal(m) =~= nat_decimal(m / 10).push((('0' as int) + (m % 10)) as char));
        }
    } else if mag >= 10 {
        out.append(digit_text(mag / 10));
        out.append(digit_text(mag % 10));
        proof {
            let m = mag as nat;
            assert(nat_decimal(m / 10) =~= seq![(('0' as int) + (mag / 10)) as char]);
            assert(nat_decimal(m) =~= nat_decimal(m / 10).push((('0' as int) + (m % 10)) as char));
        }
    } else {
        out.append(digit_text(mag));
    }
    proof {
        assert(out@ =~= prefix + nat_decimal(mag as nat));
        if v < 0 {
            assert(prefix =~= seq!['-']);
        } else {
            assert(prefix =~= Seq::<char>::empty());
        }
    }
    out
}

} // verus!
