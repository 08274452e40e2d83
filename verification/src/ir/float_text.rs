//! Decimal rendering of floating-point literals: the shortest positional
//! form of the literal's value, as in `1.5`, `1000`, `0.0001`.
//!
//! The value is taken exactly as the literal writes it: literals with more
//! significant digits than a 64-bit float holds are not rounded. Values
//! whose leading digit stands above the 309th place render as `inf`, and
//! those whose digits all stand below the 323rd decimal place as `0`.

use vstd::prelude::*;
use vstd::string::*;
use crate::parser::literal::{
    unsigned_part, exponent_mark, dot_mark, caseless_eq, is_float_text, digits_value,
    digits_value_from, digit_value, dec_digits, chars_of, float_text_ok, caseless_matches,
    lemma_digits_grow, lemma_mark_unique, lemma_dot_unique,
};

verus! {

broadcast use vstd::string::group_string_axioms;

/// `s` without its leading `0` digits.
pub open spec fn strip_leading_zeros(s: Seq<char>) -> Seq<char>
    decreases s.len(),
{
    if s.len() > 0 && s[0] == '0' {
        strip_leading_zeros(s.drop_first())
    } else {
        s
    }
}

/// The number of `0` digits at the end of `s`.
pub open spec fn trailing_zeros(s: Seq<char>) -> nat
    decreases s.len(),
{
    if s.len() > 0 && s.last() == '0' {
        1 + trailing_zeros(s.drop_last())
    } else {
        0
    }
}

/// `n` zero digits.
pub open spec fn zeros(n: nat) -> Seq<char> {
    Seq::new(n, |i: int| '0')
}

/// The value of the exponent part `x` (`e`, an optional sign, digits), or 0
/// where there is none.
pub open spec fn exponent_value(x: Seq<char>) -> int {
    if x.len() == 0 {
        0
    } else {
        let y = x.drop_first();
        let v = digits_value(unsigned_part(y), 10);
        if y.len() > 0 && y[0] == '-' {
            -v
        } else {
            v
        }
    }
}

/// The significant digits of a decimal literal body `b` and the power of
/// ten they are scaled by: the value is `digits * 10^scale`, and the
/// digits have no leading or trailing zeros (none at all for zero).
pub open spec fn significand(b: Seq<char>) -> (Seq<char>, int) {
    let e = exponent_mark(b);
    let m = b.subrange(0, e);
    let d = dot_mark(m);
    let int_part = m.subrange(0, d);
    let frac_part = if d < m.len() {
        m.subrange(d + 1, m.len() as int)
    } else {
        Seq::empty()
    };
    let all = strip_leading_zeros(int_part + frac_part);
    let t = trailing_zeros(all);
    (all.subrange(0, all.len() - t), exponent_value(b.subrange(e, b.len() as int)) - frac_part.len() + t)
}

/// How a float literal's magnitude is written, and whether its value is a
/// whole number (zero included).
pub open spec fn magnitude_text(b: Seq<char>) -> (Seq<char>, bool) {
    if caseless_eq(b, "inf"@) || caseless_eq(b, "infinity"@) {
        ("inf"@, false)
    } else if caseless_eq(b, "nan"@) {
        ("NaN"@, false)
    } else {
        let (digits, scale) = significand(b);
        let top = digits.len() + scale;
        if digits.len() == 0 {
            ("0"@, true)
        } else if top > 309 {
            ("inf"@, false)
        } else if top < -323 {
            ("0"@, true)
        } else if scale >= 0 {
            (digits + zeros(scale as nat), true)
        } else if top > 0 {
            (digits.subrange(0, top) + "."@ + digits.subrange(top, digits.len() as int), false)
        } else {
            ("0."@ + zeros((-top) as nat) + digits, false)
        }
    }
}

/// The decimal text of a float literal `t`, with a `.0` after whole
/// numbers when `point` holds. A literal that is not valid is its own text.
pub open spec fn float_display(t: Seq<char>, point: bool) -> Seq<char> {
    if !is_float_text(t) {
        t
    } else {
        let b = unsigned_part(t);
        let (mag, whole) = magnitude_text(b);
        let sign = if t.len() > 0 && t[0] == '-' && !caseless_eq(b, "nan"@) {
            "-"@
        } else {
            Seq::empty()
        };
        if point && whole {
            sign + mag + ".0"@
        } else {
            sign + mag
        }
    }
}

/// The bound at which exponents are no longer followed exactly: any larger
/// exponent puts the value out of range either way.
pub open spec fn exponent_cap() -> int {
    0x1_0000_0000_0000_0000_0000
}

/// The exponent of `v[from..]` (`e`, optional sign, decimal digits), with
/// its magnitude capped at `exponent_cap()`.
fn exponent_of(v: &Vec<char>, from: usize) -> (r: i128)
    requires
        from < v@.len(),
        dec_digits(unsigned_part(v@.subrange(from + 1, v@.len() as int))),
    ensures
        -exponent_cap() <= r <= exponent_cap(),
        -exponent_cap() < r < exponent_cap() ==> r == exponent_value(v@.subrange(from as int, v@.len() as int)),
        r == exponent_cap() ==> exponent_value(v@.subrange(from as int, v@.len() as int)) >= exponent_cap(),
        r == -exponent_cap() ==> exponent_value(v@.subrange(from as int, v@.len() as int)) <= -exponent_cap(),
{
    let n = v.len();
    let ghost x = v@.subrange(from as int, n as int);
    let ghost y = x.drop_first();
    assert(y =~= v@.subrange(from + 1, n as int));
    let neg = from + 1 < n && v[from + 1] == '-';
    let start: usize = if from + 1 < n && (v[from + 1] == '-' || v[from + 1] == '+') {
        from + 2
    } else {
        from + 1
    };
    let ghost z = unsigned_part(y);
    assert(z =~= v@.subrange(start as int, n as int));
    let cap: i128 = 0x1_0000_0000_0000_0000_0000;
    let mut acc: i128 = 0;
    let ghost mut g: int = 0;
    let mut i = start;
    assert(v@.subrange(start as int, n as int) =~= z);
    while i < n
        invariant
            start <= i <= n == v@.len(),
            z == v@.subrange(start as int, n as int),
            dec_digits(z),
            cap == exponent_cap(),
            0 <= g,
            0 <= acc <= cap,
            acc < cap ==> acc == g,
            acc == cap ==> g >= cap,
            digits_value_from(g, v@.subrange(i as int, n as int), 10) == digits_value(z, 10),
        decreases n - i,
    {
        let c = v[i];
        assert(z[i - start] == c);
        let d = (c as u32 - '0' as u32) as i128;
        assert(digit_value(c, 10) == Some(d as nat));
        assert(v@.subrange(i as int, n as int).drop_first() =~= v@.subrange(i + 1, n as int));
        proof {
            assert(g * 10 >= g) by (nonlinear_arith)
                requires
                    g >= 0,
            ;
            g = g * 10 + d;
        }
        if acc < cap {
            let next = acc * 10 + d;
            if next >= cap {
                acc = cap;
            } else {
                acc = next;
            }
        }
        i = i + 1;
    }
    assert(v@.subrange(n as int, n as int).len() == 0);
    proof {
        lemma_digits_grow(g, v@.subrange(n as int, n as int), 10);
    }
    if neg {
        -acc
    } else {
        acc
    }
}

proof fn lemma_strip_leading(s: Seq<char>, p: int)
    requires
        0 <= p <= s.len(),
        forall|i: int| 0 <= i < p ==> s[i] == '0',
        p == s.len() || s[p] != '0',
    ensures
        strip_leading_zeros(s) == s.subrange(p, s.len() as int),
    decreases p,
{
    if p == 0 {
        assert(s.subrange(0, s.len() as int) =~= s);
    } else {
        let t = s.drop_first();
        assert forall|i: int| 0 <= i < p - 1 implies t[i] == '0' by {
            assert(t[i] == s[i + 1]);
        }
        if p - 1 < t.len() {
            assert(t[p - 1] == s[p]);
        }
        lemma_strip_leading(t, p - 1);
        assert(t.subrange(p - 1, t.len() as int) =~= s.subrange(p, s.len() as int));
    }
}

proof fn lemma_trailing(s: Seq<char>, q: int)
    requires
        0 <= q <= s.len(),
        forall|i: int| q <= i < s.len() ==> s[i] == '0',
        q == 0 || s[q - 1] != '0',
    ensures
        trailing_zeros(s) == s.len() - q,
    decreases s.len(),
{
    if q < s.len() {
        let t = s.drop_last();
        assert forall|i: int| q <= i < t.len() implies t[i] == '0' by {
            assert(t[i] == s[i]);
        }
        if q > 0 {
            assert(t[q - 1] == s[q - 1]);
        }
        lemma_trailing(t, q);
    }
}

/// `n` zero digits.
fn zero_text(n: usize) -> (r: String)
    ensures
        r@ == zeros(n as nat),
{
    let mut r = String::new();
    let mut i: usize = 0;
    while i < n
        invariant
            i <= n,
            r@ == zeros(i as nat),
        decreases n - i,
    {
        proof {
            reveal_strlit("0");
        }
        r.append("0");
        i = i + 1;
        assert(r@ =~= zeros(i as nat));
    }
    r
}

/// The characters `v[from..to]` as text.
fn chars_text(v: &Vec<char>, from: usize, to: usize) -> (r: String)
    requires
        from <= to <= v@.len(),
    ensures
        r@ == v@.subrange(from as int, to as int),
{
    let mut r = String::new();
    let mut i = from;
    while i < to
        invariant
            from <= i <= to <= v@.len(),
            r@ == v@.subrange(from as int, i as int),
        decreases to - i,
    {
        let piece = crate::text::char_to_text(v[i]);
        r.append(piece.as_str());
        i = i + 1;
        assert(r@ =~= v@.subrange(from as int, i as int));
    }
    r
}

/// The written form of the magnitude `digits * 10^scale`, where `digits`
/// has no leading or trailing zeros, and whether it is a whole number.
pub open spec fn positional(digits: Seq<char>, scale: int) -> (Seq<char>, bool) {
    let top = digits.len() + scale;
    if digits.len() == 0 {
        ("0"@, true)
    } else if top > 309 {
        ("inf"@, false)
    } else if top < -323 {
        ("0"@, true)
    } else if scale >= 0 {
        (digits + zeros(scale as nat), true)
    } else if top > 0 {
        (digits.subrange(0, top) + "."@ + digits.subrange(top, digits.len() as int), false)
    } else {
        ("0."@ + zeros((-top) as nat) + digits, false)
    }
}

/// The digits of a decimal literal body `v[start..]`, before and after its
/// point (at `d`, or at the exponent mark `e` when there is none).
fn mantissa_digits(v: &Vec<char>, start: usize, d: usize, e: usize) -> (all: Vec<char>)
    requires
        start <= d <= e <= v@.len(),
    ensures
        all@ == v@.subrange(start as int, d as int) + (if d < e {
            v@.subrange(d + 1, e as int)
        } else {
            Seq::empty()
        }),
{
    let mut all: Vec<char> = Vec::new();
    let mut i = start;
    while i < d
        invariant
            start <= i <= d <= e <= v@.len(),
            all@ == v@.subrange(start as int, i as int),
        decreases d - i,
    {
        all.push(v[i]);
        i = i + 1;
        assert(all@ =~= v@.subrange(start as int, i as int));
    }
    let ghost int_part = all@;
    let frac_start: usize = if d < e { d + 1 } else { e };
    let mut i = frac_start;
    while i < e
        invariant
            frac_start <= i <= e <= v@.len(),
            all@ == int_part + v@.subrange(frac_start as int, i as int),
        decreases e - i,
    {
        all.push(v[i]);
        i = i + 1;
        assert(all@ =~= int_part + v@.subrange(frac_start as int, i as int));
    }
    assert(d == e ==> v@.subrange(frac_start as int, e as int) =~= Seq::<char>::empty());
    all
}

/// Where the significant digits of `all` begin and end.
fn digit_bounds(all: &Vec<char>) -> (r: (usize, usize))
    ensures
        r.0 <= r.1 <= all@.len(),
        ({
            let stripped = strip_leading_zeros(all@);
            let t = trailing_zeros(stripped);
            &&& stripped.subrange(0, stripped.len() - t) == all@.subrange(r.0 as int, r.1 as int)
            &&& t == all@.len() - r.1
        }),
{
    let len = all.len();
    let mut p: usize = 0;
    while p < len && all[p] == '0'
        invariant
            p <= len == all@.len(),
            forall|k: int| 0 <= k < p ==> all@[k] == '0',
        decreases len - p,
    {
        p = p + 1;
    }
    proof {
        lemma_strip_leading(all@, p as int);
    }
    let ghost stripped = all@.subrange(p as int, len as int);
    let mut q: usize = len;
    while q > p && all[q - 1] == '0'
        invariant
            p <= q <= len == all@.len(),
            forall|k: int| q <= k < len ==> all@[k] == '0',
        decreases q - p,
    {
        q = q - 1;
    }
    proof {
        assert forall|k: int| q - p <= k < stripped.len() implies stripped[k] == '0' by {
            assert(stripped[k] == all@[p + k]);
        }
        if q > p {
            assert(stripped[q - p - 1] == all@[q - 1]);
        }
        lemma_trailing(stripped, q - p);
        assert(stripped.subrange(0, stripped.len() - (len - q)) =~= all@.subrange(p as int, q as int));
    }
    (p, q)
}

/// The significant digits `all[p..q]` of a decimal literal body
/// `v[start..]` whose exponent mark stands at `e` and decimal point (if
/// any) at `d`, and their scale, exact when `exact` holds and otherwise
/// beyond every bound that matters, on the same side as the exact one.
fn significant_digits(v: &Vec<char>, start: usize, d: usize, e: usize) -> (r: (Vec<char>, usize, usize, i128, bool))
    requires
        start <= d <= e <= v@.len(),
        exponent_mark(v@.subrange(start as int, v@.len() as int)) == e - start,
        dot_mark(v@.subrange(start as int, e as int)) == d - start,
        e < v@.len() ==> dec_digits(unsigned_part(v@.subrange(e + 1, v@.len() as int))),
    ensures
        ({
            let (all, p, q, scale, exact) = r;
            let (digits, sc) = significand(v@.subrange(start as int, v@.len() as int));
            &&& p <= q <= all@.len()
            &&& digits == all@.subrange(p as int, q as int)
            &&& exact ==> sc == scale
            &&& !exact ==> ((scale > 0x1_0000_0000_0000_0000_00 && sc > 0x1_0000_0000_0000_0000_00)
                || (scale < -0x1_0000_0000_0000_0000_00 && sc < -0x1_0000_0000_0000_0000_00))
            &&& -0x1_0000_0000_0000_0000_0000_0 < scale < 0x1_0000_0000_0000_0000_0000_0
        }),
{
    let n = v.len();
    let ghost b = v@.subrange(start as int, n as int);
    let ghost m = b.subrange(0, e - start);
    assert(m =~= v@.subrange(start as int, e as int));
    assert(m.subrange(0, d - start) =~= v@.subrange(start as int, d as int));
    assert(d < e ==> m.subrange(d - start + 1, m.len() as int) =~= v@.subrange(d + 1, e as int));
    assert(b.subrange(e - start, b.len() as int) =~= v@.subrange(e as int, n as int));
    let all = mantissa_digits(v, start, d, e);
    let (p, q) = digit_bounds(&all);
    let frac_len: usize = if d < e { e - d - 1 } else { 0 };
    let len = all.len();
    let expv: i128 = if e < n {
        exponent_of(v, e)
    } else {
        0
    };
    assert(e == n ==> v@.subrange(e as int, n as int).len() == 0);
    let scale: i128 = expv - frac_len as i128 + (len - q) as i128;
    let exact = -0x1_0000_0000_0000_0000_0000i128 < expv && expv < 0x1_0000_0000_0000_0000_0000i128;
    (all, p, q, scale, exact)
}

/// The written form of `all[p..q] * 10^scale`.
fn positional_text(all: &Vec<char>, p: usize, q: usize, scale: i128) -> (r: (String, bool))
    requires
        p <= q <= all@.len(),
        -0x1_0000_0000_0000_0000_0000_0 < scale < 0x1_0000_0000_0000_0000_0000_0,
    ensures
        r.0@ == positional(all@.subrange(p as int, q as int), scale as int).0,
        r.1 == positional(all@.subrange(p as int, q as int), scale as int).1,
{
    proof {
        reveal_strlit("0");
        reveal_strlit("inf");
        reveal_strlit("0.");
        reveal_strlit(".");
    }
    let ghost digits = all@.subrange(p as int, q as int);
    let count = q - p;
    let top: i128 = count as i128 + scale;
    if count == 0 {
        return (String::from_str("0"), true);
    }
    if top > 309 {
        return (String::from_str("inf"), false);
    }
    if top < -323 {
        return (String::from_str("0"), true);
    }
    if scale >= 0 {
        let mut r = chars_text(all, p, q);
        let z = zero_text(scale as usize);
        r.append(z.as_str());
        (r, true)
    } else if top > 0 {
        let cut: usize = p + top as usize;
        let mut r = chars_text(all, p, cut);
        r.append(".");
        let rest = chars_text(all, cut, q);
        r.append(rest.as_str());
        assert(digits.subrange(0, top as int) =~= all@.subrange(p as int, cut as int));
        assert(digits.subrange(top as int, digits.len() as int) =~= all@.subrange(cut as int, q as int));
        (r, false)
    } else {
        let mut r = String::from_str("0.");
        let z = zero_text((-top) as usize);
        r.append(z.as_str());
        let ds = chars_text(all, p, q);
        r.append(ds.as_str());
        (r, false)
    }
}

proof fn lemma_positional_far(digits: Seq<char>, s1: int, s2: int)
    requires
        digits.len() < 0x1_0000_0000_0000_0000_0,
        (s1 > 0x1_0000_0000_0000_0000_00 && s2 > 0x1_0000_0000_0000_0000_00) || (s1
            < -0x1_0000_0000_0000_0000_00 && s2 < -0x1_0000_0000_0000_0000_00),
    ensures
        positional(digits, s1) == positional(digits, s2),
{
}

/// The decimal text of the float literal `t`, with `.0` after a whole
/// number when `point` holds.
pub fn float_text(t: &str, point: bool) -> (r: String)
    ensures
        r@ == float_display(t@, point),
{
    if !float_text_ok(t) {
        return String::from_str(t);
    }
    let v = chars_of(t);
    let n = v.len();
    let start: usize = if n > 0 && (v[0] == '+' || v[0] == '-') {
        1
    } else {
        0
    };
    let negative = n > 0 && v[0] == '-';
    let ghost b = unsigned_part(v@);
    assert(b =~= v@.subrange(start as int, n as int));
    proof {
        reveal_strlit("inf");
        reveal_strlit("infinity");
        reveal_strlit("nan");
        reveal_strlit("NaN");
        reveal_strlit("-");
        reveal_strlit(".0");
        reveal_strlit("");
    }
    assert(negative == (t@.len() > 0 && t@[0] == '-'));
    let sign = if negative {
        "-"
    } else {
        ""
    };
    if caseless_matches(&v, start, "inf") || caseless_matches(&v, start, "infinity") {
        let mut out = String::from_str(sign);
        out.append("inf");
        return out;
    }
    if caseless_matches(&v, start, "nan") {
        return String::from_str("NaN");
    }
    let mut e = start;
    while e < n && v[e] != 'e' && v[e] != 'E'
        invariant
            start <= e <= n == v@.len(),
            forall|i: int| start <= i < e ==> v@[i] != 'e' && v@[i] != 'E',
        decreases n - e,
    {
        e = e + 1;
    }
    proof {
        lemma_mark_unique(b, e - start);
    }
    let mut d = start;
    while d < e && v[d] != '.'
        invariant
            start <= d <= e <= n == v@.len(),
            forall|i: int| start <= i < d ==> v@[i] != '.',
        decreases e - d,
    {
        d = d + 1;
    }
    proof {
        lemma_dot_unique(v@.subrange(start as int, e as int), d - start);
        let x = b.subrange(e - start, b.len() as int);
        assert(x =~= v@.subrange(e as int, n as int));
        if e < n {
            assert(x.drop_first() =~= v@.subrange(e + 1, n as int));
        }
    }
    let (all, p, q, scale, exact) = significant_digits(&v, start, d, e);
    let (mag, whole) = positional_text(&all, p, q, scale);
    proof {
        let (digits, sc) = significand(b);
        if !exact {
            lemma_positional_far(digits, sc, scale as int);
        }
    }
    let mut out = String::from_str(sign);
    out.append(mag.as_str());
    if point && whole {
        out.append(".0");
    }
    out
}

} // verus!
