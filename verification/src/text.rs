//! Text helpers shared by the compiler passes: decimal rendering of
//! integers, byte-level string comparison and slicing.

use vstd::prelude::*;
use vstd::string::*;
use vstd::utf8::*;

verus! {

broadcast use vstd::string::group_string_axioms;

/// The character for a decimal digit `d` (0 through 9).
pub open spec fn digit_char(d: nat) -> char {
    ((48 + d) as u32) as char
}

/// Decimal rendering of a natural number, most significant digit first.
pub open spec fn decimal(n: nat) -> Seq<char>
    decreases n,
{
    if n < 10 {
        seq![digit_char(n)]
    } else {
        decimal(n / 10).push(digit_char(n % 10))
    }
}

/// Decimal rendering of a signed integer: a leading '-' for negative values.
pub open spec fn signed_decimal(n: int) -> Seq<char> {
    if n < 0 {
        seq!['-'] + decimal((-n) as nat)
    } else {
        decimal(n as nat)
    }
}

fn digit_text(d: u64) -> (s: &'static str)
    requires
        d < 10,
    ensures
        s@ == seq![digit_char(d as nat)],
{
    proof {
        reveal_strlit("0");
        reveal_strlit("1");
        reveal_strlit("2");
        reveal_strlit("3");
        reveal_strlit("4");
        reveal_strlit("5");
        reveal_strlit("6");
        reveal_strlit("7");
        reveal_strlit("8");
        reveal_strlit("9");
    }
    match d {
        0 => "0",
        1 => "1",
        2 => "2",
        3 => "3",
        4 => "4",
        5 => "5",
        6 => "6",
        7 => "7",
        8 => "8",
        _ => "9",
    }
}

/// Renders `n` in decimal.
pub fn u64_to_text(n: u64) -> (s: String)
    ensures
        s@ == decimal(n as nat),
    decreases n,
{
    if n < 10 {
        String::from_str(digit_text(n))
    } else {
        let mut s = u64_to_text(n / 10);
        s.append(digit_text(n % 10));
        s
    }
}

/// Renders `n` in decimal.
pub fn usize_to_text(n: usize) -> (s: String)
    ensures
        s@ == decimal(n as nat),
{
    u64_to_text(n as u64)
}

/// Renders `n` in decimal, with a leading '-' when negative.
pub fn i64_to_text(n: i64) -> (s: String)
    ensures
        s@ == signed_decimal(n as int),
{
    if n < 0 {
        let magnitude: u64 = if n == i64::MIN {
            9223372036854775808u64
        } else {
            (-n) as u64
        };
        let digits = u64_to_text(magnitude);
        let s = String::from_str("-");
        proof {
            reveal_strlit("-");
        }
        s.concat(digits.as_str())
    } else {
        u64_to_text(n as u64)
    }
}

/// Byte-wise equality of two strings, which is equality of their characters.
pub fn str_eq(a: &str, b: &str) -> (r: bool)
    ensures
        r == (a@ == b@),
{
    let x = a.as_bytes();
    let y = b.as_bytes();
    proof {
        broadcast use vstd::utf8::encode_utf8_decode_utf8;
        assert(decode_utf8(encode_utf8(a@)) == a@);
        assert(decode_utf8(encode_utf8(b@)) == b@);
    }
    if x.len() != y.len() {
        return false;
    }
    let mut i: usize = 0;
    while i < x.len()
        invariant
            x@ == a.spec_bytes(),
            y@ == b.spec_bytes(),
            x@.len() == y@.len(),
            i <= x@.len(),
            forall|j: int| 0 <= j < i ==> x@[j] == y@[j],
        decreases x@.len() - i,
    {
        if x[i] != y[i] {
            return false;
        }
        i = i + 1;
    }
    assert(x@ =~= y@);
    true
}

} // verus!

verus! {

/// In valid UTF-8, the byte after an ASCII byte never continues a character.
pub proof fn lemma_ascii_then_char_start(b: Seq<u8>, i: int)
    requires
        valid_utf8(b),
        0 <= i < b.len(),
        b[i] < 0x80,
    ensures
        i + 1 == b.len() || !is_continuation_byte(b[i + 1]),
    decreases b.len(),
{
    reveal_with_fuel(valid_utf8, 2);
    assert(valid_first_scalar(b));
    let l = length_of_first_scalar(b);
    let rest = pop_first_scalar(b);
    assert(rest.len() == b.len() - l);
    if i < l {
        if i > 0 {
            assert(is_continuation_byte(b[i]));
        }
        assert(i == 0);
        assert(l == 1);
        if b.len() > 1 {
            assert(rest[0] == b[1]);
            assert(valid_first_scalar(rest));
        }
    } else {
        assert(rest[i - l] == b[i]);
        lemma_ascii_then_char_start(rest, i - l);
        if i + 1 < b.len() {
            assert(rest[i - l + 1] == b[i + 1]);
        }
    }
}

/// Positions at an ASCII byte, or right after one, are character boundaries.
pub proof fn lemma_ascii_boundaries(b: Seq<u8>, start: int, end: int)
    requires
        valid_utf8(b),
        0 <= start < end <= b.len(),
        b[start] < 0x80,
        b[end - 1] < 0x80,
    ensures
        is_char_boundary(b, start),
        is_char_boundary(b, end),
{
    is_char_boundary_iff_not_is_continuation_byte(b, start);
    lemma_ascii_then_char_start(b, end - 1);
    if end == b.len() {
        is_char_boundary_start_end_of_seq(b);
    } else {
        is_char_boundary_iff_not_is_continuation_byte(b, end);
    }
}

/// The UTF-8 encoding of a text is that of all but its last character
/// followed by that of its last character.
pub proof fn lemma_encode_utf8_last(chars: Seq<char>)
    requires
        chars.len() > 0,
    ensures
        encode_utf8(chars) == encode_utf8(chars.drop_last()) + encode_scalar(chars.last() as u32),
    decreases chars.len(),
{
    if chars.len() == 1 {
        assert(chars.drop_last() =~= Seq::<char>::empty());
        assert(chars.drop_first() =~= Seq::<char>::empty());
        assert(encode_utf8(chars) =~= encode_scalar(chars[0] as u32) + encode_utf8(Seq::<char>::empty()));
        assert(encode_utf8(chars) =~= encode_utf8(chars.drop_last()) + encode_scalar(chars.last() as u32));
    } else {
        let rest = chars.drop_first();
        lemma_encode_utf8_last(rest);
        assert(rest.drop_last() =~= chars.drop_last().drop_first());
        assert(rest.last() == chars.last());
        assert(encode_utf8(chars.drop_last()) == encode_scalar(chars.drop_last()[0] as u32) + encode_utf8(
            chars.drop_last().drop_first(),
        ));
        assert(encode_utf8(chars) =~= encode_utf8(chars.drop_last()) + encode_scalar(chars.last() as u32));
    }
}

/// A character whose encoding starts or ends with an ASCII byte is that
/// ASCII character, encoded in one byte.
proof fn lemma_ascii_scalar(c: char)
    requires
        encode_scalar(c as u32)[0] < 0x80 || encode_scalar(c as u32).last() < 0x80,
    ensures
        (c as u32) < 0x80,
        encode_scalar(c as u32).len() == 1,
{
    let v = c as u32;
    if has_width_1_encoding(v) {
    } else if has_width_2_encoding(v) {
        assert(0x80 <= leading_byte_width_2(v)) by (bit_vector);
        assert(0x80 <= last_continuation_byte(v)) by (bit_vector);
    } else if has_width_3_encoding(v) {
        assert(0x80 <= leading_byte_width_3(v)) by (bit_vector);
        assert(0x80 <= last_continuation_byte(v)) by (bit_vector);
    } else {
        assert(0x80 <= leading_byte_width_4(v)) by (bit_vector);
        assert(0x80 <= last_continuation_byte(v)) by (bit_vector);
    }
}

/// A text whose encoding has at least two bytes and begins and ends with
/// ASCII bytes has at least two characters, and its first and last
/// characters are ASCII.
pub proof fn lemma_ascii_ends(chars: Seq<char>)
    requires
        encode_utf8(chars).len() >= 2,
        encode_utf8(chars)[0] < 0x80,
        encode_utf8(chars).last() < 0x80,
    ensures
        chars.len() >= 2,
        (chars[0] as u32) < 0x80,
        (chars.last() as u32) < 0x80,
{
    let b = encode_utf8(chars);
    assert(chars.len() > 0);
    let first = encode_scalar(chars[0] as u32);
    assert(b == first + encode_utf8(chars.drop_first()));
    assert(first.len() > 0) by {
        reveal_with_fuel(encode_scalar, 1);
    }
    assert(b[0] == first[0]);
    lemma_ascii_scalar(chars[0]);
    lemma_encode_utf8_last(chars);
    let last = encode_scalar(chars.last() as u32);
    assert(last.len() > 0);
    assert(b.last() == last.last());
    lemma_ascii_scalar(chars.last());
    if chars.len() == 1 {
        assert(chars.drop_first() =~= Seq::<char>::empty());
        assert(b.len() == 1);
    }
}

/// The text of `source` between two byte offsets that sit on character boundaries.
pub fn slice_text(source: &str, start: usize, end: usize) -> (r: String)
    requires
        start <= end <= source.spec_bytes().len(),
        is_char_boundary(source.spec_bytes(), start as int),
        is_char_boundary(source.spec_bytes(), end as int),
    ensures
        encode_utf8(r@) == source.spec_bytes().subrange(start as int, end as int),
{
    let span = crate::diagnostics::Span { start, end };
    let piece = span.slice(source);
    String::from_str(piece)
}

} // verus!

verus! {

/// The one-character text holding `c` (std's `char::to_string`).
#[verifier::external_body]
pub fn char_to_text(c: char) -> (s: String)
    ensures
        s@ == seq![c],
{
    c.to_string()
}

} // verus!

verus! {

/// Whether `c` is upper case in Unicode (std's `char::is_uppercase`); for
/// ASCII that is `A` to `Z`.
#[verifier::external_body]
pub fn char_is_uppercase(c: char) -> (b: bool)
    ensures
        (c as u32) < 128 ==> (b == ('A' <= c <= 'Z')),
{
    c.is_uppercase()
}

/// Whether `c` is lower case in Unicode (std's `char::is_lowercase`); for
/// ASCII that is `a` to `z`.
#[verifier::external_body]
pub fn char_is_lowercase(c: char) -> (b: bool)
    ensures
        (c as u32) < 128 ==> (b == ('a' <= c <= 'z')),
{
    c.is_lowercase()
}

} // verus!
