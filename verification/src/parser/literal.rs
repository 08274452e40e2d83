//! The text of literal tokens: digit separators, integer values in the
//! four bases, floating-point syntax, escapes in string and character
//! literals, and quote trimming.

use vstd::prelude::*;
use vstd::string::*;
use crate::text::{char_to_text, decimal, digit_char};

verus! {

broadcast use vstd::string::group_string_axioms;

/// `s` without its `_` digit separators.
pub open spec fn strip_underscores(s: Seq<char>) -> Seq<char>
    decreases s.len(),
{
    if s.len() == 0 {
        Seq::empty()
    } else if s[0] == '_' {
        strip_underscores(s.drop_first())
    } else {
        seq![s[0]] + strip_underscores(s.drop_first())
    }
}

/// The text of `s` with every `_` removed.
pub fn remove_underscores(s: &str) -> (r: String)
    ensures
        r@ == strip_underscores(s@),
{
    let n = s.unicode_len();
    let mut out = String::new();
    let mut i: usize = 0;
    assert(s@.subrange(0, n as int) =~= s@);
    while i < n
        invariant
            n == s@.len(),
            i <= n,
            out@ + strip_underscores(s@.subrange(i as int, n as int)) == strip_underscores(s@),
        decreases n - i,
    {
        let c = s.get_char(i);
        assert(s@.subrange(i as int, n as int).drop_first() =~= s@.subrange(i + 1, n as int));
        if c != '_' {
            let piece = char_to_text(c);
            out.append(piece.as_str());
            assert(out@ + strip_underscores(s@.subrange(i + 1, n as int)) =~= strip_underscores(s@));
        }
        i = i + 1;
    }
    assert(s@.subrange(n as int, n as int) =~= Seq::<char>::empty());
    assert(out@ =~= strip_underscores(s@));
    out
}

/// The value of `c` as a digit in base `radix` (letters of either case
/// stand for ten and up), if it is one.
pub open spec fn digit_value(c: char, radix: nat) -> Option<nat> {
    let v: int = if '0' <= c <= '9' {
        c as int - '0' as int
    } else if 'a' <= c <= 'z' {
        c as int - 'a' as int + 10
    } else if 'A' <= c <= 'Z' {
        c as int - 'A' as int + 10
    } else {
        99
    };
    if v < radix {
        Some(v as nat)
    } else {
        None
    }
}

/// Whether every character of `s` is a digit in base `radix`.
pub open spec fn all_digits(s: Seq<char>, radix: nat) -> bool {
    forall|i: int| 0 <= i < s.len() ==> (#[trigger] digit_value(s[i], radix)).is_some()
}

/// The number that the digits `s` spell in base `radix` when read after
/// the digits already worth `acc`.
pub open spec fn digits_value_from(acc: int, s: Seq<char>, radix: nat) -> int
    decreases s.len(),
{
    if s.len() == 0 {
        acc
    } else {
        digits_value_from(acc * radix + digit_value(s[0], radix).unwrap(), s.drop_first(), radix)
    }
}

/// The number that the digits `s` spell in base `radix`.
pub open spec fn digits_value(s: Seq<char>, radix: nat) -> int {
    digits_value_from(0, s, radix)
}

/// The smallest value of a 64-bit signed integer, as a magnitude.
pub open spec fn i64_magnitude_limit() -> int {
    0x8000_0000_0000_0000
}

/// The 64-bit signed integer written by `s` in base `radix`: an optional
/// `+` or `-` sign, then at least one digit; `None` when a character is not
/// a digit or the value does not fit.
pub open spec fn signed_value(s: Seq<char>, radix: nat) -> Option<i64> {
    let neg = s.len() > 0 && s[0] == '-';
    let digits = if s.len() > 0 && (s[0] == '-' || s[0] == '+') {
        s.drop_first()
    } else {
        s
    };
    let v = if neg {
        -digits_value(digits, radix)
    } else {
        digits_value(digits, radix)
    };
    if digits.len() == 0 || !all_digits(digits, radix) {
        None
    } else if i64::MIN <= v <= i64::MAX {
        Some(v as i64)
    } else {
        None
    }
}

pub proof fn lemma_digits_grow(acc: int, s: Seq<char>, radix: nat)
    requires
        acc >= 0,
        radix >= 2,
        all_digits(s, radix),
    ensures
        digits_value_from(acc, s, radix) >= acc,
    decreases s.len(),
{
    if s.len() > 0 {
        let d = digit_value(s[0], radix).unwrap();
        assert(acc * radix >= acc) by (nonlinear_arith)
            requires
                acc >= 0,
                radix >= 2,
        ;
        assert forall|i: int| 0 <= i < s.drop_first().len() implies (#[trigger] digit_value(
            s.drop_first()[i],
            radix,
        )).is_some() by {
            assert(s.drop_first()[i] == s[i + 1]);
        }
        lemma_digits_grow(acc * radix + d, s.drop_first(), radix);
    }
}

/// The digit value of `c` in base `radix`.
fn digit_of(c: char, radix: u32) -> (r: Option<u32>)
    requires
        2 <= radix <= 36,
    ensures
        match digit_value(c, radix as nat) {
            Some(v) => r == Some(v as u32),
            None => r is None,
        },
{
    let v: u32 = if '0' <= c && c <= '9' {
        (c as u32) - ('0' as u32)
    } else if 'a' <= c && c <= 'z' {
        (c as u32) - ('a' as u32) + 10
    } else if 'A' <= c && c <= 'Z' {
        (c as u32) - ('A' as u32) + 10
    } else {
        99
    };
    if v < radix {
        Some(v)
    } else {
        None
    }
}

/// Parse `s` as a 64-bit signed integer in base `radix`, as std's
/// `i64::from_str_radix` does.
#[verifier::loop_isolation(false)]
pub fn parse_signed(s: &str, radix: u32) -> (r: Option<i64>)
    requires
        2 <= radix <= 36,
    ensures
        r == signed_value(s@, radix as nat),
{
    let n = s.unicode_len();
    if n == 0 {
        return None;
    }
    let first = s.get_char(0);
    let neg = first == '-';
    let start: usize = if first == '-' || first == '+' { 1 } else { 0 };
    let ghost digits = s@.subrange(start as int, n as int);
    assert(digits =~= (if s@[0] == '-' || s@[0] == '+' { s@.drop_first() } else { s@ }));
    if start == n {
        return None;
    }
    let mut mag: u64 = 0;
    let mut big = false;
    let ghost mut g: int = 0;
    let mut i: usize = start;
    while i < n
        invariant
            n == s@.len(),
            start <= i <= n,
            2 <= radix <= 36,
            digits == s@.subrange(start as int, n as int),
            all_digits(s@.subrange(start as int, i as int), radix as nat),
            g >= 0,
            digits_value_from(g, s@.subrange(i as int, n as int), radix as nat) == digits_value(
                digits,
                radix as nat,
            ),
            !big ==> mag == g,
            mag <= 0x8000_0000_0000_0000u64,
            big ==> g > i64_magnitude_limit(),
        decreases n - i,
    {
        let c = s.get_char(i);
        let d = match digit_of(c, radix) {
            Some(d) => d,
            None => {
                assert(!all_digits(digits, radix as nat)) by {
                    assert(digits[i - start] == c);
                    assert(digit_value(digits[i - start], radix as nat).is_none());
                }
                return None;
            },
        };
        assert(s@.subrange(i as int, n as int).drop_first() =~= s@.subrange(i + 1, n as int));
        proof {
            assert(g * radix >= g) by (nonlinear_arith)
                requires
                    g >= 0,
                    radix >= 2,
            ;
            g = g * radix + d;
        }
        if !big {
            match mag.checked_mul(radix as u64) {
                Some(m) => match m.checked_add(d as u64) {
                    Some(v) => {
                        if v > 0x8000_0000_0000_0000u64 {
                            big = true;
                        } else {
                            mag = v;
                        }
                    },
                    None => {
                        big = true;
                    },
                },
                None => {
                    big = true;
                },
            }
        }
        assert forall|j: int| 0 <= j < s@.subrange(start as int, i + 1).len() implies (
        #[trigger] digit_value(s@.subrange(start as int, i + 1)[j], radix as nat)).is_some() by {
            if j < i - start {
                assert(s@.subrange(start as int, i + 1)[j] == s@.subrange(start as int, i as int)[j]);
            }
        }
        i = i + 1;
    }
    assert(s@.subrange(start as int, n as int) =~= digits);
    assert(s@.subrange(n as int, n as int).len() == 0);
    if big {
        proof {
            lemma_digits_grow(g, s@.subrange(n as int, n as int), radix as nat);
        }
        return None;
    }
    if neg {
        if mag == 0x8000_0000_0000_0000u64 {
            Some(i64::MIN)
        } else {
            Some(-(mag as i64))
        }
    } else if mag <= 0x7fff_ffff_ffff_ffffu64 {
        Some(mag as i64)
    } else {
        None
    }
}

/// The value of an integer literal: digit separators are dropped, and the
/// prefixes `0x`, `0b` and `0o` (either case) select base 16, 2 and 8.
pub open spec fn int_literal_value(text: Seq<char>) -> Option<i64> {
    let c = strip_underscores(text);
    if c.len() >= 2 && c[0] == '0' && (c[1] == 'x' || c[1] == 'X') {
        signed_value(c.subrange(2, c.len() as int), 16)
    } else if c.len() >= 2 && c[0] == '0' && (c[1] == 'b' || c[1] == 'B') {
        signed_value(c.subrange(2, c.len() as int), 2)
    } else if c.len() >= 2 && c[0] == '0' && (c[1] == 'o' || c[1] == 'O') {
        signed_value(c.subrange(2, c.len() as int), 8)
    } else {
        signed_value(c, 10)
    }
}

/// Reading one more digit multiplies what was read by the radix and adds
/// the digit.
proof fn lemma_digits_push(acc: int, s: Seq<char>, c: char, radix: nat)
    ensures
        digits_value_from(acc, s.push(c), radix) == digits_value_from(acc, s, radix) * radix + digit_value(
            c,
            radix,
        ).unwrap(),
    decreases s.len(),
{
    let t = s.push(c);
    if s.len() == 0 {
        assert(t.drop_first() =~= Seq::<char>::empty());
        assert(t[0] == c);
        assert(digits_value_from(acc, t, radix) == digits_value_from(
            acc * radix + digit_value(c, radix).unwrap(),
            t.drop_first(),
            radix,
        ));
    } else {
        assert(t.drop_first() =~= s.drop_first().push(c));
        assert(t[0] == s[0]);
        lemma_digits_push(acc * radix + digit_value(s[0], radix).unwrap(), s.drop_first(), c, radix);
    }
}

/// The decimal text of a number is made of decimal digits, none of them
/// `_`, and reads back as that number.
proof fn lemma_decimal_reads_back(n: nat)
    ensures
        all_digits(decimal(n), 10),
        digits_value(decimal(n), 10) == n,
        decimal(n).len() > 0,
        forall|i: int| 0 <= i < decimal(n).len() ==> '0' <= #[trigger] decimal(n)[i] <= '9',
    decreases n,
{
    let d = n % 10;
    assert(digit_char(d) as int == 48 + d);
    assert('0' <= digit_char(d) <= '9');
    assert(digit_value(digit_char(d), 10) == Some(d));
    if n < 10 {
        lemma_digits_push(0, Seq::<char>::empty(), digit_char(d), 10);
        assert(Seq::<char>::empty().push(digit_char(d)) =~= decimal(n));
    } else {
        lemma_decimal_reads_back(n / 10);
        let h = decimal(n / 10);
        lemma_digits_push(0, h, digit_char(d), 10);
        assert forall|i: int| 0 <= i < decimal(n).len() implies '0' <= #[trigger] decimal(n)[i] <= '9' by {
            if i < h.len() {
                assert(decimal(n)[i] == h[i]);
            }
        }
        assert forall|i: int| 0 <= i < decimal(n).len() implies (#[trigger] digit_value(decimal(n)[i], 10)).is_some() by {
            assert('0' <= decimal(n)[i] <= '9');
        }
    }
}

/// Text without `_` is left as it is.
proof fn lemma_strip_plain(s: Seq<char>)
    requires
        forall|i: int| 0 <= i < s.len() ==> #[trigger] s[i] != '_',
    ensures
        strip_underscores(s) == s,
    decreases s.len(),
{
    if s.len() > 0 {
        assert forall|i: int| 0 <= i < s.drop_first().len() implies #[trigger] s.drop_first()[i] != '_' by {
            assert(s.drop_first()[i] == s[i + 1]);
        }
        lemma_strip_plain(s.drop_first());
        assert(seq![s[0]] + s.drop_first() =~= s);
    }
}

/// An integer literal written in decimal, as the compiler writes numbers,
/// reads back as the number it writes: for every value up to the largest
/// 64-bit signed integer.
pub proof fn law_decimal_literal_reads_back(n: nat)
    requires
        n <= i64::MAX,
    ensures
        int_literal_value(decimal(n)) == Some(n as i64),
{
    lemma_decimal_reads_back(n);
    let s = decimal(n);
    assert forall|i: int| 0 <= i < s.len() implies #[trigger] s[i] != '_' by {
        assert('0' <= s[i] <= '9');
    }
    lemma_strip_plain(s);
    assert('0' <= s[0] <= '9');
    if s.len() >= 2 {
        assert('0' <= s[1] <= '9');
    }
}

/// The value of the integer literal `text`, if it is a valid one.
pub fn int_literal(text: &str) -> (r: Option<i64>)
    ensures
        r == int_literal_value(text@),
{
    let cleaned = remove_underscores(text);
    let c = cleaned.as_str();
    let n = c.unicode_len();
    if n >= 2 && c.get_char(0) == '0' {
        let second = c.get_char(1);
        let radix: u32 = if second == 'x' || second == 'X' {
            16
        } else if second == 'b' || second == 'B' {
            2
        } else if second == 'o' || second == 'O' {
            8
        } else {
            10
        };
        if radix != 10 {
            let rest = c.substring_char(2, n);
            return parse_signed(rest, radix);
        }
    }
    parse_signed(c, 10)
}

/// The characters of `s`, one by one.
pub fn chars_of(s: &str) -> (v: Vec<char>)
    ensures
        v@ == s@,
{
    let n = s.unicode_len();
    let mut v: Vec<char> = Vec::new();
    let mut i: usize = 0;
    while i < n
        invariant
            n == s@.len(),
            i <= n,
            v@ == s@.subrange(0, i as int),
        decreases n - i,
    {
        v.push(s.get_char(i));
        i = i + 1;
        assert(v@ =~= s@.subrange(0, i as int));
    }
    assert(v@ =~= s@);
    v
}

/// Whether every character of `s` is a decimal digit.
pub open spec fn dec_digits(s: Seq<char>) -> bool {
    forall|i: int| 0 <= i < s.len() ==> '0' <= #[trigger] s[i] <= '9'
}

/// `c` with ASCII capitals made lower case.
pub open spec fn ascii_lower(c: char) -> char {
    if 'A' <= c <= 'Z' {
        (c as u32 + 32) as char
    } else {
        c
    }
}

/// Whether `s` spells the lower-case ASCII `word` in any mix of cases.
pub open spec fn caseless_eq(s: Seq<char>, word: Seq<char>) -> bool {
    s.len() == word.len() && forall|i: int| 0 <= i < s.len() ==> ascii_lower(#[trigger] s[i]) == word[i]
}

/// `s` without one leading `+` or `-`.
pub open spec fn unsigned_part(s: Seq<char>) -> Seq<char> {
    if s.len() > 0 && (s[0] == '+' || s[0] == '-') {
        s.drop_first()
    } else {
        s
    }
}

/// The position of the first `e` or `E` in `s`, or its length.
pub open spec fn exponent_mark(s: Seq<char>) -> int
    decreases s.len(),
{
    if s.len() == 0 || s[0] == 'e' || s[0] == 'E' {
        0
    } else {
        1 + exponent_mark(s.drop_first())
    }
}

/// The position of the first `.` in `s`, or its length.
pub open spec fn dot_mark(s: Seq<char>) -> int
    decreases s.len(),
{
    if s.len() == 0 || s[0] == '.' {
        0
    } else {
        1 + dot_mark(s.drop_first())
    }
}

/// Digits with at most one `.` among them, and at least one digit.
pub open spec fn mantissa_ok(m: Seq<char>) -> bool {
    let d = dot_mark(m);
    if d == m.len() {
        m.len() > 0 && dec_digits(m)
    } else {
        &&& m.len() >= 2
        &&& dec_digits(m.subrange(0, d))
        &&& dec_digits(m.subrange(d + 1, m.len() as int))
    }
}

/// Nothing, or `e`/`E`, an optional sign and at least one digit.
pub open spec fn exponent_ok(x: Seq<char>) -> bool {
    x.len() == 0 || {
        let z = unsigned_part(x.drop_first());
        (x[0] == 'e' || x[0] == 'E') && z.len() > 0 && dec_digits(z)
    }
}

/// Whether std's `f64` parser accepts `s`: an optional sign, then `inf`,
/// `infinity` or `nan` in any case, or digits with an optional `.` and an
/// optional exponent.
pub open spec fn is_float_text(s: Seq<char>) -> bool {
    let b = unsigned_part(s);
    let e = exponent_mark(b);
    ||| caseless_eq(b, "inf"@)
    ||| caseless_eq(b, "infinity"@)
    ||| caseless_eq(b, "nan"@)
    ||| mantissa_ok(b.subrange(0, e)) && exponent_ok(b.subrange(e, b.len() as int))
}

proof fn lemma_exponent_mark(s: Seq<char>)
    ensures
        0 <= exponent_mark(s) <= s.len(),
        exponent_mark(s) < s.len() ==> (s[exponent_mark(s)] == 'e' || s[exponent_mark(s)] == 'E'),
        forall|i: int| 0 <= i < exponent_mark(s) ==> s[i] != 'e' && s[i] != 'E',
    decreases s.len(),
{
    if s.len() > 0 && s[0] != 'e' && s[0] != 'E' {
        lemma_exponent_mark(s.drop_first());
        assert forall|i: int| 0 <= i < exponent_mark(s) implies s[i] != 'e' && s[i] != 'E' by {
            if i > 0 {
                assert(s[i] == s.drop_first()[i - 1]);
            }
        }
    }
}

proof fn lemma_dot_mark(s: Seq<char>)
    ensures
        0 <= dot_mark(s) <= s.len(),
        dot_mark(s) < s.len() ==> s[dot_mark(s)] == '.',
        forall|i: int| 0 <= i < dot_mark(s) ==> s[i] != '.',
    decreases s.len(),
{
    if s.len() > 0 && s[0] != '.' {
        lemma_dot_mark(s.drop_first());
        assert forall|i: int| 0 <= i < dot_mark(s) implies s[i] != '.' by {
            if i > 0 {
                assert(s[i] == s.drop_first()[i - 1]);
            }
        }
    }
}

pub proof fn lemma_mark_unique(s: Seq<char>, k: int)
    requires
        0 <= k <= s.len(),
        k < s.len() ==> (s[k] == 'e' || s[k] == 'E'),
        forall|i: int| 0 <= i < k ==> s[i] != 'e' && s[i] != 'E',
    ensures
        exponent_mark(s) == k,
    decreases s.len(),
{
    if k > 0 {
        assert forall|i: int| 0 <= i < k - 1 implies s.drop_first()[i] != 'e' && s.drop_first()[i]
            != 'E' by {
            assert(s.drop_first()[i] == s[i + 1]);
        }
        if k - 1 < s.drop_first().len() {
            assert(s.drop_first()[k - 1] == s[k]);
        }
        lemma_mark_unique(s.drop_first(), k - 1);
    }
}

pub proof fn lemma_dot_unique(s: Seq<char>, k: int)
    requires
        0 <= k <= s.len(),
        k < s.len() ==> s[k] == '.',
        forall|i: int| 0 <= i < k ==> s[i] != '.',
    ensures
        dot_mark(s) == k,
    decreases s.len(),
{
    if k > 0 {
        assert forall|i: int| 0 <= i < k - 1 implies s.drop_first()[i] != '.' by {
            assert(s.drop_first()[i] == s[i + 1]);
        }
        if k - 1 < s.drop_first().len() {
            assert(s.drop_first()[k - 1] == s[k]);
        }
        lemma_dot_unique(s.drop_first(), k - 1);
    }
}

/// Whether the characters `v[from..to]` are all decimal digits.
fn all_dec(v: &Vec<char>, from: usize, to: usize) -> (b: bool)
    requires
        from <= to <= v@.len(),
    ensures
        b == dec_digits(v@.subrange(from as int, to as int)),
{
    let mut i = from;
    while i < to
        invariant
            from <= i <= to <= v@.len(),
            dec_digits(v@.subrange(from as int, i as int)),
        decreases to - i,
    {
        if !('0' <= v[i] && v[i] <= '9') {
            assert(v@.subrange(from as int, to as int)[i - from] == v@[i as int]);
            return false;
        }
        assert forall|j: int| 0 <= j < v@.subrange(from as int, i + 1).len() implies '0'
            <= #[trigger] v@.subrange(from as int, i + 1)[j] <= '9' by {
            if j < i - from {
                assert(v@.subrange(from as int, i + 1)[j] == v@.subrange(from as int, i as int)[j]);
            }
        }
        i = i + 1;
    }
    true
}

/// Whether `v[from..]` spells the lower-case ASCII `word` in any mix of cases.
pub fn caseless_matches(v: &Vec<char>, from: usize, word: &str) -> (b: bool)
    requires
        from <= v@.len(),
        word@.len() < usize::MAX,
    ensures
        b == caseless_eq(v@.subrange(from as int, v@.len() as int), word@),
{
    let n = v.len();
    let m = word.unicode_len();
    if n - from != m {
        return false;
    }
    let mut i: usize = 0;
    while i < m
        invariant
            n == v@.len(),
            m == word@.len(),
            n - from == m,
            i <= m,
            forall|j: int| 0 <= j < i ==> ascii_lower(v@[from + j]) == word@[j],
        decreases m - i,
    {
        let c = v[from + i];
        let lc = if 'A' <= c && c <= 'Z' {
            ((c as u8) + 32) as char
        } else {
            c
        };
        assert(lc == ascii_lower(c)) by {
            if 'A' <= c <= 'Z' {
                assert((c as u8) as u32 == c as u32);
            }
        }
        if lc != word.get_char(i) {
            assert(v@.subrange(from as int, n as int)[i as int] == v@[from + i]);
            return false;
        }
        i = i + 1;
    }
    assert forall|j: int| 0 <= j < m implies ascii_lower(
        #[trigger] v@.subrange(from as int, n as int)[j],
    ) == word@[j] by {
        assert(v@.subrange(from as int, n as int)[j] == v@[from + j]);
    }
    true
}

/// Whether `v[from..]` is one of the words `inf`, `infinity` and `nan`.
fn special_float(v: &Vec<char>, from: usize) -> (r: bool)
    requires
        from <= v@.len(),
    ensures
        r == {
            let b = v@.subrange(from as int, v@.len() as int);
            caseless_eq(b, "inf"@) || caseless_eq(b, "infinity"@) || caseless_eq(b, "nan"@)
        },
{
    proof {
        reveal_strlit("inf");
        reveal_strlit("infinity");
        reveal_strlit("nan");
    }
    caseless_matches(v, from, "inf") || caseless_matches(v, from, "infinity") || caseless_matches(
        v,
        from,
        "nan",
    )
}

/// Whether `v[from..]` is digits with at most one `.` and an optional exponent.
fn decimal_float(v: &Vec<char>, from: usize) -> (r: bool)
    requires
        from <= v@.len(),
    ensures
        r == {
            let b = v@.subrange(from as int, v@.len() as int);
            let e = exponent_mark(b);
            mantissa_ok(b.subrange(0, e)) && exponent_ok(b.subrange(e, b.len() as int))
        },
{
    let ghost b = v@.subrange(from as int, v@.len() as int);
    let n = v.len();
    let start = from;
    let mut e = start;
    while e < n && v[e] != 'e' && v[e] != 'E'
        invariant
            start <= e <= n == v@.len(),
            forall|i: int| start <= i < e ==> v@[i] != 'e' && v@[i] != 'E',
        decreases n - e,
    {
        e = e + 1;
    }
    proof {
        lemma_mark_unique(b, e - start);
    }
    let mut d = start;
    while d < e && v[d] != '.'
        invariant
            start <= d <= e <= n == v@.len(),
            forall|i: int| start <= i < d ==> v@[i] != '.',
        decreases e - d,
    {
        d = d + 1;
    }
    let ghost m = b.subrange(0, e - start);
    assert(m =~= v@.subrange(start as int, e as int));
    proof {
        lemma_dot_unique(m, d - start);
    }
    let mantissa = if d == e {
        e > start && all_dec(v, start, e)
    } else {
        assert(m.subrange(0, d - start) =~= v@.subrange(start as int, d as int));
        assert(m.subrange(d - start + 1, m.len() as int) =~= v@.subrange(d + 1, e as int));
        e - start >= 2 && all_dec(v, start, d) && all_dec(v, d + 1, e)
    };
    let ghost x = b.subrange(e - start, b.len() as int);
    assert(x =~= v@.subrange(e as int, n as int));
    let exponent = if e == n {
        true
    } else {
        let s2: usize = if e + 1 < n && (v[e + 1] == '+' || v[e + 1] == '-') {
            e + 2
        } else {
            e + 1
        };
        assert(unsigned_part(x.drop_first()) =~= v@.subrange(s2 as int, n as int));
        s2 < n && all_dec(v, s2, n)
    };
    mantissa && exponent
}

/// Whether std's `f64` parser accepts `text`.
pub fn float_text_ok(text: &str) -> (b: bool)
    ensures
        b == is_float_text(text@),
{
    let v = chars_of(text);
    let n = v.len();
    let start: usize = if n > 0 && (v[0] == '+' || v[0] == '-') {
        1
    } else {
        0
    };
    assert(unsigned_part(v@) =~= v@.subrange(start as int, n as int));
    special_float(&v, start) || decimal_float(&v, start)
}

/// What the escape `\\c` in a string literal stands for.
pub open spec fn string_escape(c: char) -> Seq<char> {
    if c == 'n' {
        seq!['\n']
    } else if c == 't' {
        seq!['\t']
    } else if c == 'r' {
        seq!['\r']
    } else if c == '\\' {
        seq!['\\']
    } else if c == '"' {
        seq!['"']
    } else if c == '0' {
        seq!['\0']
    } else {
        seq!['\\', c]
    }
}

/// The characters a string literal body `s` stands for: each backslash
/// escape is replaced by what it denotes; an unknown escape, or a backslash
/// at the very end, stays as written.
pub open spec fn unescape(s: Seq<char>) -> Seq<char>
    decreases s.len(),
{
    if s.len() == 0 {
        Seq::empty()
    } else if s[0] == '\\' {
        if s.len() == 1 {
            seq!['\\']
        } else {
            string_escape(s[1]) + unescape(s.subrange(2, s.len() as int))
        }
    } else {
        seq![s[0]] + unescape(s.drop_first())
    }
}

fn escape_text(c: char) -> (r: String)
    ensures
        r@ == string_escape(c),
{
    let one = if c == 'n' {
        '\n'
    } else if c == 't' {
        '\t'
    } else if c == 'r' {
        '\r'
    } else if c == '\\' {
        '\\'
    } else if c == '"' {
        '"'
    } else if c == '0' {
        '\0'
    } else {
        let mut r = char_to_text('\\');
        let tail = char_to_text(c);
        r.append(tail.as_str());
        return r;
    };
    char_to_text(one)
}

/// Process the escape sequences of a string literal body.
pub fn unescape_string(s: &str) -> (r: String)
    ensures
        r@ == unescape(s@),
{
    let v = chars_of(s);
    let n = v.len();
    let mut out = String::new();
    let mut i: usize = 0;
    assert(v@.subrange(0, n as int) =~= v@);
    while i < n
        invariant
            n == v@.len(),
            v@ == s@,
            i <= n,
            out@ + unescape(v@.subrange(i as int, n as int)) == unescape(v@),
        decreases n - i,
    {
        let ghost rest = v@.subrange(i as int, n as int);
        if v[i] == '\\' {
            if i + 1 == n {
                out.append("\\");
                proof {
                    reveal_strlit("\\");
                }
                assert(rest =~= seq!['\\']);
                assert(out@ + unescape(v@.subrange(n as int, n as int)) =~= unescape(v@));
                i = n;
            } else {
                let piece = escape_text(v[i + 1]);
                out.append(piece.as_str());
                assert(rest.subrange(2, rest.len() as int) =~= v@.subrange(i + 2, n as int));
                assert(out@ + unescape(v@.subrange(i + 2, n as int)) =~= unescape(v@));
                i = i + 2;
            }
        } else {
            let piece = char_to_text(v[i]);
            out.append(piece.as_str());
            assert(rest.drop_first() =~= v@.subrange(i + 1, n as int));
            assert(out@ + unescape(v@.subrange(i + 1, n as int)) =~= unescape(v@));
            i = i + 1;
        }
    }
    assert(out@ =~= unescape(v@));
    out
}

/// The character a character literal body `inner` stands for: a known
/// escape is replaced by what it denotes; otherwise the first character
/// counts, and an empty body stands for the NUL character.
pub open spec fn char_literal_value(inner: Seq<char>) -> char {
    if inner.len() >= 2 && inner[0] == '\\' && inner[1] == 'n' {
        '\n'
    } else if inner.len() >= 2 && inner[0] == '\\' && inner[1] == 't' {
        '\t'
    } else if inner.len() >= 2 && inner[0] == '\\' && inner[1] == 'r' {
        '\r'
    } else if inner.len() >= 2 && inner[0] == '\\' && inner[1] == '\\' {
        '\\'
    } else if inner.len() >= 2 && inner[0] == '\\' && inner[1] == '\'' {
        '\''
    } else if inner.len() >= 2 && inner[0] == '\\' && inner[1] == '0' {
        '\0'
    } else if inner.len() > 0 {
        inner[0]
    } else {
        '\0'
    }
}

/// The character a character literal body stands for.
pub fn char_literal(inner: &str) -> (c: char)
    ensures
        c == char_literal_value(inner@),
{
    let n = inner.unicode_len();
    if n == 0 {
        return '\0';
    }
    let first = inner.get_char(0);
    if first == '\\' && n >= 2 {
        let e = inner.get_char(1);
        if e == 'n' {
            return '\n';
        } else if e == 't' {
            return '\t';
        } else if e == 'r' {
            return '\r';
        } else if e == '\\' {
            return '\\';
        } else if e == '\'' {
            return '\'';
        } else if e == '0' {
            return '\0';
        }
    }
    first
}

/// `s` without its leading `"` characters.
pub open spec fn trim_start_quotes(s: Seq<char>) -> Seq<char>
    decreases s.len(),
{
    if s.len() > 0 && s[0] == '"' {
        trim_start_quotes(s.drop_first())
    } else {
        s
    }
}

/// `s` without its trailing `"` characters.
pub open spec fn trim_end_quotes(s: Seq<char>) -> Seq<char>
    decreases s.len(),
{
    if s.len() > 0 && s.last() == '"' {
        trim_end_quotes(s.drop_last())
    } else {
        s
    }
}

/// `s` without the `"` characters at either end.
pub open spec fn trim_quotes(s: Seq<char>) -> Seq<char> {
    trim_end_quotes(trim_start_quotes(s))
}

/// The text of `s` without the `"` characters at either end.
pub fn trim_quote_marks(s: &str) -> (r: String)
    ensures
        r@ == trim_quotes(s@),
{
    let n = s.unicode_len();
    let mut a: usize = 0;
    assert(s@.subrange(0, n as int) =~= s@);
    while a < n && s.get_char(a) == '"'
        invariant
            n == s@.len(),
            a <= n,
            trim_start_quotes(s@.subrange(a as int, n as int)) == trim_start_quotes(s@),
        decreases n - a,
    {
        assert(s@.subrange(a as int, n as int).drop_first() =~= s@.subrange(a + 1, n as int));
        a = a + 1;
    }
    let mut b: usize = n;
    assert(trim_start_quotes(s@.subrange(a as int, n as int)) == s@.subrange(a as int, n as int));
    while b > a && s.get_char(b - 1) == '"'
        invariant
            n == s@.len(),
            a <= b <= n,
            trim_start_quotes(s@) == s@.subrange(a as int, n as int),
            trim_end_quotes(s@.subrange(a as int, b as int)) == trim_quotes(s@),
        decreases b - a,
    {
        assert(s@.subrange(a as int, b as int).drop_last() =~= s@.subrange(a as int, b - 1));
        b = b - 1;
    }
    let r = s.substring_char(a, b);
    String::from_str(r)
}

} // verus!
