//! Text handling for the debugger: lines of a source file, whitespace
//! separated words of a command, and line numbers.

use vstd::prelude::*;
use vstd::string::*;
use crate::parser::literal::{chars_of, digits_value, digits_value_from, digit_value, dec_digits, lemma_digits_grow};
use crate::text::char_to_text;

verus! {

broadcast use vstd::string::group_string_axioms;

/// The lines of a text: it is split at each `\n`, a `\r` right before a
/// `\n` is dropped, and a final line break adds no empty line.
pub open spec fn lines_of(s: Seq<char>) -> Seq<Seq<char>>
    decreases s.len(),
{
    if s.len() == 0 {
        Seq::empty()
    } else {
        let k = line_break(s, 0);
        proof {
            lemma_line_break_bounds(s, 0);
        }
        if k == s.len() {
            seq![s]
        } else {
            let line = s.subrange(0, k);
            let line = if line.len() > 0 && line.last() == '\r' {
                line.drop_last()
            } else {
                line
            };
            seq![line] + lines_of(s.subrange(k + 1, s.len() as int))
        }
    }
}

/// The position of the first `\n` at or after `i`, or the length of `s`.
pub open spec fn line_break(s: Seq<char>, i: int) -> int
    decreases s.len() - i,
{
    if 0 <= i < s.len() && s[i] != '\n' {
        line_break(s, i + 1)
    } else {
        i
    }
}

/// Whether `c` is white space in Unicode (std's `char::is_whitespace`).
pub open spec fn is_white(c: char) -> bool {
    ||| '\t' <= c <= '\r'
    ||| c == ' '
    ||| c == '\u{85}'
    ||| c == '\u{a0}'
    ||| c == '\u{1680}'
    ||| '\u{2000}' <= c <= '\u{200a}'
    ||| c == '\u{2028}'
    ||| c == '\u{2029}'
    ||| c == '\u{202f}'
    ||| c == '\u{205f}'
    ||| c == '\u{3000}'
}

/// The end of the word that starts at `i`: the first white space at or
/// after `i`, or the length of `s`.
pub open spec fn word_end(s: Seq<char>, i: int) -> int
    decreases s.len() - i,
{
    if 0 <= i < s.len() && !is_white(s[i]) {
        word_end(s, i + 1)
    } else {
        i
    }
}

/// The words of a text: its maximal runs of characters other than white
/// space, in order.
pub open spec fn words(s: Seq<char>) -> Seq<Seq<char>>
    decreases s.len(),
{
    if s.len() == 0 {
        Seq::empty()
    } else if is_white(s[0]) {
        words(s.drop_first())
    } else {
        let k = word_end(s, 0);
        proof {
            lemma_word_end_bounds(s, 0);
        }
        seq![s.subrange(0, k)] + words(s.subrange(k, s.len() as int))
    }
}

/// The value of a line number as std's `usize` parser reads it: an
/// optional `+`, then at least one decimal digit, and a value that fits.
pub open spec fn line_number(s: Seq<char>) -> Option<usize> {
    let digits = if s.len() > 0 && s[0] == '+' {
        s.drop_first()
    } else {
        s
    };
    if digits.len() == 0 || !dec_digits(digits) || digits_value(digits, 10) > usize::MAX {
        None
    } else {
        Some(digits_value(digits, 10) as usize)
    }
}

/// The texts of a list of strings.
pub open spec fn views(v: Seq<String>) -> Seq<Seq<char>> {
    Seq::new(v.len(), |i: int| v[i]@)
}

/// Whether `c` is white space in Unicode (std's `char::is_whitespace`).
pub fn is_white_char(c: char) -> (b: bool)
    ensures
        b == is_white(c),
{
    ('\t' <= c && c <= '\r') || c == ' ' || c == '\u{85}' || c == '\u{a0}' || c == '\u{1680}' || (
    '\u{2000}' <= c && c <= '\u{200a}') || c == '\u{2028}' || c == '\u{2029}' || c == '\u{202f}'
        || c == '\u{205f}' || c == '\u{3000}'
}

pub proof fn lemma_line_break_bounds(s: Seq<char>, i: int)
    requires
        0 <= i <= s.len(),
    ensures
        i <= line_break(s, i) <= s.len(),
        forall|j: int| i <= j < line_break(s, i) ==> s[j] != '\n',
        line_break(s, i) < s.len() ==> s[line_break(s, i)] == '\n',
    decreases s.len() - i,
{
    if i < s.len() && s[i] != '\n' {
        lemma_line_break_bounds(s, i + 1);
    }
}

proof fn lemma_line_break_shift(s: Seq<char>, a: int, i: int)
    requires
        0 <= a <= i <= s.len(),
    ensures
        line_break(s.subrange(a, s.len() as int), i - a) == line_break(s, i) - a,
    decreases s.len() - i,
{
    if i < s.len() && s[i] != '\n' {
        lemma_line_break_shift(s, a, i + 1);
    }
}

pub proof fn lemma_word_end_bounds(s: Seq<char>, i: int)
    requires
        0 <= i <= s.len(),
    ensures
        i <= word_end(s, i) <= s.len(),
        forall|j: int| i <= j < word_end(s, i) ==> !is_white(s[j]),
        word_end(s, i) < s.len() ==> is_white(s[word_end(s, i)]),
    decreases s.len() - i,
{
    if i < s.len() && !is_white(s[i]) {
        lemma_word_end_bounds(s, i + 1);
    }
}

proof fn lemma_word_end_shift(s: Seq<char>, a: int, i: int)
    requires
        0 <= a <= i <= s.len(),
    ensures
        word_end(s.subrange(a, s.len() as int), i - a) == word_end(s, i) - a,
    decreases s.len() - i,
{
    if i < s.len() && !is_white(s[i]) {
        lemma_word_end_shift(s, a, i + 1);
    }
}

/// The lines of `text`, as std's `str::lines` gives them.
pub fn split_lines(text: &str) -> (r: Vec<String>)
    ensures
        views(r@) == lines_of(text@),
{
    let v = chars_of(text);
    let n = v.len();
    let mut out: Vec<String> = Vec::new();
    let mut i: usize = 0;
    assert(v@.subrange(0, n as int) =~= v@);
    while i < n
        invariant
            n == v@.len(),
            v@ == text@,
            i <= n,
            views(out@) + lines_of(v@.subrange(i as int, n as int)) == lines_of(v@),
        decreases n - i,
    {
        let ghost rest = v@.subrange(i as int, n as int);
        let mut k = i;
        while k < n && v[k] != '\n'
            invariant
                i <= k <= n == v@.len(),
                forall|j: int| i <= j < k ==> v@[j] != '\n',
            decreases n - k,
        {
            k = k + 1;
        }
        proof {
            lemma_line_break_bounds(v@, i as int);
            lemma_line_break_shift(v@, i as int, i as int);
            lemma_line_break_bounds(v@, i as int);
            assert(line_break(v@, i as int) == k) by {
                if line_break(v@, i as int) < k {
                    assert(v@[line_break(v@, i as int)] == '\n');
                }
                if line_break(v@, i as int) > k && k < n {
                    assert(v@[k as int] != '\n');
                }
            }
        }
        // the line, without a `\r` before its `\n`
        let end = if k < n && k > i && v[k - 1] == '\r' {
            k - 1
        } else {
            k
        };
        let mut line = String::new();
        let mut j = i;
        while j < end
            invariant
                i <= j <= end <= n == v@.len(),
                line@ == v@.subrange(i as int, j as int),
            decreases end - j,
        {
            let piece = char_to_text(v[j]);
            line.append(piece.as_str());
            j = j + 1;
            assert(line@ =~= v@.subrange(i as int, j as int));
        }
        let ghost old_out = out@;
        out.push(line);
        proof {
            assert(views(out@) =~= views(old_out).push(line@));
            if k == n {
                assert(rest =~= v@.subrange(i as int, n as int));
                assert(rest.subrange(0, k - i) =~= rest);
                assert(lines_of(rest) == seq![rest]);
                assert(v@.subrange(n as int, n as int) =~= Seq::<char>::empty());
                assert(views(out@) + lines_of(v@.subrange(n as int, n as int)) =~= views(old_out)
                    + lines_of(rest));
            } else {
                let l = rest.subrange(0, k - i);
                assert(l =~= v@.subrange(i as int, k as int));
                if k > i && v@[k - 1] == '\r' {
                    assert(l.drop_last() =~= v@.subrange(i as int, k - 1));
                }
                assert(rest.subrange(k - i + 1, rest.len() as int) =~= v@.subrange(k + 1, n as int));
                assert(views(out@) + lines_of(v@.subrange(k + 1, n as int)) =~= views(old_out)
                    + lines_of(rest));
            }
        }
        i = if k < n { k + 1 } else { n };
    }
    assert(v@.subrange(n as int, n as int) =~= Seq::<char>::empty());
    assert(views(out@) =~= lines_of(v@));
    out
}

/// The whitespace-separated words of `text` (std's `str::split_whitespace`).
pub fn split_words(text: &str) -> (r: Vec<String>)
    ensures
        views(r@) == words(text@),
{
    let v = chars_of(text);
    let n = v.len();
    let mut out: Vec<String> = Vec::new();
    let mut i: usize = 0;
    assert(v@.subrange(0, n as int) =~= v@);
    while i < n
        invariant
            n == v@.len(),
            v@ == text@,
            i <= n,
            views(out@) + words(v@.subrange(i as int, n as int)) == words(v@),
        decreases n - i,
    {
        let ghost rest = v@.subrange(i as int, n as int);
        if is_white_char(v[i]) {
            assert(rest.drop_first() =~= v@.subrange(i + 1, n as int));
            i = i + 1;
        } else {
            let mut k = i;
            while k < n && !is_white_char(v[k])
                invariant
                    i <= k <= n == v@.len(),
                    forall|j: int| i <= j < k ==> !is_white(v@[j]),
                decreases n - k,
            {
                k = k + 1;
            }
            proof {
                lemma_word_end_bounds(v@, i as int);
                lemma_word_end_shift(v@, i as int, i as int);
                assert(word_end(v@, i as int) == k) by {
                    if word_end(v@, i as int) < k {
                        assert(is_white(v@[word_end(v@, i as int)]));
                    }
                    if word_end(v@, i as int) > k && k < n {
                        assert(is_white(v@[k as int]));
                    }
                }
            }
            let mut word = String::new();
            let mut j = i;
            while j < k
                invariant
                    i <= j <= k <= n == v@.len(),
                    word@ == v@.subrange(i as int, j as int),
                decreases k - j,
            {
                let piece = char_to_text(v[j]);
                word.append(piece.as_str());
                j = j + 1;
                assert(word@ =~= v@.subrange(i as int, j as int));
            }
            let ghost old_out = out@;
            out.push(word);
            proof {
                assert(views(out@) =~= views(old_out).push(word@));
                assert(rest.subrange(0, k - i) =~= v@.subrange(i as int, k as int));
                assert(rest.subrange(k - i, rest.len() as int) =~= v@.subrange(k as int, n as int));
                assert(views(out@) + words(v@.subrange(k as int, n as int)) =~= views(old_out) + words(
                    rest,
                ));
            }
            i = k;
        }
    }
    assert(v@.subrange(n as int, n as int) =~= Seq::<char>::empty());
    assert(views(out@) =~= words(v@));
    out
}

/// Parse a line number as std's `usize` parser does.
#[verifier::loop_isolation(false)]
pub fn parse_line_number(s: &str) -> (r: Option<usize>)
    ensures
        r == line_number(s@),
{
    let v = chars_of(s);
    let n = v.len();
    let start: usize = if n > 0 && v[0] == '+' {
        1
    } else {
        0
    };
    let ghost digits = v@.subrange(start as int, n as int);
    assert(digits =~= (if v@.len() > 0 && v@[0] == '+' { v@.drop_first() } else { v@ }));
    if start == n {
        return None;
    }
    let mut acc: usize = 0;
    let mut big = false;
    let ghost mut g: int = 0;
    let mut i = start;
    assert(v@.subrange(start as int, n as int) =~= digits);
    while i < n
        invariant
            start <= i <= n == v@.len(),
            digits == v@.subrange(start as int, n as int),
            dec_digits(v@.subrange(start as int, i as int)),
            0 <= g,
            !big ==> acc == g,
            big ==> g > usize::MAX,
            digits_value_from(g, v@.subrange(i as int, n as int), 10) == digits_value(digits, 10),
        decreases n - i,
    {
        let c = v[i];
        if !('0' <= c && c <= '9') {
            assert(!dec_digits(digits)) by {
                assert(digits[i - start] == c);
            }
            return None;
        }
        let d = (c as u32 - '0' as u32) as usize;
        assert(digit_value(c, 10) == Some(d as nat));
        assert(v@.subrange(i as int, n as int).drop_first() =~= v@.subrange(i + 1, n as int));
        proof {
            assert(g * 10 >= g) by (nonlinear_arith)
                requires
                    g >= 0,
            ;
            g = g * 10 + d;
        }
        if !big {
            match acc.checked_mul(10) {
                Some(m) => match m.checked_add(d) {
                    Some(x) => {
                        acc = x;
                    },
                    None => {
                        big = true;
                    },
                },
                None => {
                    big = true;
                },
            }
        }
        assert forall|j: int| 0 <= j < v@.subrange(start as int, i + 1).len() implies '0'
            <= #[trigger] v@.subrange(start as int, i + 1)[j] <= '9' by {
            if j < i - start {
                assert(v@.subrange(start as int, i + 1)[j] == v@.subrange(start as int, i as int)[j]);
            }
        }
        i = i + 1;
    }
    assert(v@.subrange(start as int, n as int) =~= digits);
    assert(v@.subrange(n as int, n as int).len() == 0);
    if big {
        proof {
            lemma_digits_grow(g, v@.subrange(n as int, n as int), 10);
        }
        return None;
    }
    Some(acc)
}

} // verus!
