//! The lexical grammar leaves no choice: from a given position, at most one
//! token can come next, so a text has at most one complete token stream.

use vstd::prelude::*;
use vstd::utf8::*;
use super::token::{Token, TokenKind};
use super::rules::{
    blank_to, comment_at, line_end, token_fits, punct_at, is_word_start, is_digit, string_end, char_end,
};
use super::{follows, tokens_follow, lexed, ends_line};

verus! {

broadcast use encode_utf8_decode_utf8;

/// A byte at `c` that the blanks between tokens can begin with: a space, a
/// tab, a line comment, or a line break when `nl` lets line breaks be blank.
pub open spec fn blank_start(b: Seq<u8>, c: int, nl: bool) -> bool {
    &&& 0 <= c < b.len()
    &&& (b[c] == 32 || b[c] == 9 || (nl && (b[c] == 10 || b[c] == 13)) || comment_at(b, c))
}

/// No token can follow position `p` (with `prev` as in `follows`).
pub open spec fn no_token_after(b: Seq<u8>, p: int, prev: bool) -> bool {
    forall|t: Token| #![trigger follows(b, p, prev, t)] token_fits(b, t) ==> !follows(b, p, prev, t)
}

/// Two tokens agree in kind, extent and text.
pub open spec fn same_token(t1: Token, t2: Token) -> bool {
    &&& t1.kind == t2.kind
    &&& t1.span == t2.span
    &&& t1.lexeme@ == t2.lexeme@
}

/// When blanks from `a` reach both `c` and a later `d`, the byte at `c` is
/// itself a blank start.
pub proof fn lemma_blank_stop(b: Seq<u8>, a: int, c: int, d: int, nl: bool)
    requires
        blank_to(b, a, c, nl),
        blank_to(b, a, d, nl),
        c < d,
    ensures
        blank_start(b, c, nl),
    decreases c - a,
{
    if a != c {
        if b[a] == 32 || b[a] == 9 || (nl && (b[a] == 10 || b[a] == 13)) {
            lemma_blank_stop(b, a + 1, c, d, nl);
        } else {
            lemma_blank_stop(b, line_end(b, a), c, d, nl);
        }
    }
}

/// Blanks from `a` to `c` that pass through `m` are blanks from `m` to `c`.
pub proof fn lemma_blank_cut(b: Seq<u8>, a: int, m: int, c: int, nl: bool)
    requires
        blank_to(b, a, m, nl),
        blank_to(b, a, c, nl),
        m <= c,
    ensures
        blank_to(b, m, c, nl),
    decreases m - a,
{
    if a != m {
        if b[a] == 32 || b[a] == 9 || (nl && (b[a] == 10 || b[a] == 13)) {
            lemma_blank_cut(b, a + 1, m, c, nl);
        } else {
            lemma_blank_cut(b, line_end(b, a), m, c, nl);
        }
    }
}

/// A token that follows `p` does not start on a blank.
pub proof fn lemma_token_not_blank(b: Seq<u8>, p: int, prev: bool, t: Token)
    requires
        token_fits(b, t),
        follows(b, p, prev, t),
    ensures
        !blank_start(b, t.span.start as int, !prev),
{
    reveal(token_fits);
    reveal(follows);
}

/// Two tokens that both follow `p` start at the same place.
pub proof fn lemma_same_start(b: Seq<u8>, p: int, prev: bool, t1: Token, t2: Token)
    requires
        token_fits(b, t1),
        follows(b, p, prev, t1),
        token_fits(b, t2),
        follows(b, p, prev, t2),
    ensures
        t1.span.start == t2.span.start,
{
    reveal(follows);
    lemma_token_not_blank(b, p, prev, t1);
    lemma_token_not_blank(b, p, prev, t2);
    if t1.span.start < t2.span.start {
        lemma_blank_stop(b, p, t1.span.start as int, t2.span.start as int, !prev);
    } else if t2.span.start < t1.span.start {
        lemma_blank_stop(b, p, t2.span.start as int, t1.span.start as int, !prev);
    }
}

/// At most one token can follow a position.
pub proof fn lemma_next_token_unique(b: Seq<u8>, p: int, prev: bool, t1: Token, t2: Token)
    requires
        token_fits(b, t1),
        follows(b, p, prev, t1),
        token_fits(b, t2),
        follows(b, p, prev, t2),
    ensures
        same_token(t1, t2),
{
    lemma_same_start(b, p, prev, t1, t2);
    reveal(token_fits);
    let s = t1.span.start as int;
    let e1 = t1.span.end as int;
    let e2 = t2.span.end as int;
    if s == b.len() {
        assert(t1.kind == TokenKind::Eof && t2.kind == TokenKind::Eof);
        assert(t1.lexeme@ =~= t2.lexeme@);
    } else if b[s] == 10 || b[s] == 13 {
        assert(punct_at(b, s).is_none());
        assert(t1.kind == TokenKind::Newline && t2.kind == TokenKind::Newline);
        assert(e1 == e2);
    } else {
        assert(t1.kind != TokenKind::Newline && t1.kind != TokenKind::Eof);
        assert(t2.kind != TokenKind::Newline && t2.kind != TokenKind::Eof);
        assert(e1 == e2);
        assert(encode_utf8(t1.lexeme@) == encode_utf8(t2.lexeme@));
        assert(decode_utf8(encode_utf8(t1.lexeme@)) == t1.lexeme@);
        assert(decode_utf8(encode_utf8(t2.lexeme@)) == t2.lexeme@);
        assert(t1.lexeme@ == t2.lexeme@);
    }
}

/// Two runs of tokens read from the same text agree wherever both reach.
pub proof fn lemma_follow_prefix(b: Seq<u8>, xs: Seq<Token>, ys: Seq<Token>, i: int)
    requires
        tokens_follow(b, xs),
        tokens_follow(b, ys),
        0 <= i < xs.len(),
        i < ys.len(),
    ensures
        same_token(xs[i], ys[i]),
    decreases i,
{
    assert(token_fits(b, xs[i]) && token_fits(b, ys[i]));
    if i == 0 {
        lemma_next_token_unique(b, 0, false, xs[0], ys[0]);
    } else {
        lemma_follow_prefix(b, xs, ys, i - 1);
        let q = xs[i - 1];
        assert(follows(b, q.span.end as int, ends_line(q.kind), xs[i]));
        assert(follows(b, ys[i - 1].span.end as int, ends_line(ys[i - 1].kind), ys[i]));
        lemma_next_token_unique(b, q.span.end as int, ends_line(q.kind), xs[i], ys[i]);
    }
}

/// A text has at most one token stream: two complete lexings of the same
/// bytes have the same tokens, with the same kinds, extents and texts.
pub proof fn law_lexing_unique(b: Seq<u8>, xs: Seq<Token>, ys: Seq<Token>)
    requires
        lexed(b, xs),
        lexed(b, ys),
    ensures
        xs.len() == ys.len(),
        forall|i: int| 0 <= i < xs.len() ==> same_token(#[trigger] xs[i], ys[i]),
{
    if xs.len() < ys.len() {
        lemma_follow_prefix(b, xs, ys, xs.len() - 1);
        assert(ys[xs.len() - 1].kind != TokenKind::Eof);
    } else if ys.len() < xs.len() {
        lemma_follow_prefix(b, xs, ys, ys.len() - 1);
        assert(xs[ys.len() - 1].kind != TokenKind::Eof);
    }
    assert forall|i: int| 0 <= i < xs.len() implies same_token(#[trigger] xs[i], ys[i]) by {
        lemma_follow_prefix(b, xs, ys, i);
    }
}

/// A run of tokens that stops, short of the end of the text, at a point
/// after which no token can follow, cannot be extended to a lexing.
pub proof fn lemma_stuck_not_lexed(b: Seq<u8>, xs: Seq<Token>, p: int, prev: bool, ys: Seq<Token>)
    requires
        tokens_follow(b, xs),
        xs.len() == 0 ==> p == 0 && !prev,
        xs.len() > 0 ==> {
            &&& xs.last().span.end == p
            &&& prev == ends_line(xs.last().kind)
            &&& xs.last().kind != TokenKind::Eof
        },
        no_token_after(b, p, prev),
    ensures
        !lexed(b, ys),
{
    if lexed(b, ys) {
        let k: int = xs.len() as int;
        if k == 0 {
            assert(token_fits(b, ys[0]));
            assert(follows(b, p, prev, ys[0]));
        } else {
            if ys.len() <= k {
                lemma_follow_prefix(b, xs, ys, ys.len() - 1);
                if ys.len() < k {
                    assert(xs[ys.len() - 1].kind != TokenKind::Eof);
                }
            } else {
                lemma_follow_prefix(b, xs, ys, k - 1);
                assert(token_fits(b, ys[k]));
                assert(follows(b, ys[k - 1].span.end as int, ends_line(ys[k - 1].kind), ys[k]));
                assert(follows(b, p, prev, ys[k]));
            }
        }
    }
}

/// No token can start at `s`: its byte begins no token of the grammar, or
/// begins a string or character literal that is never closed properly.
pub open spec fn stuck_at(b: Seq<u8>, s: int) -> bool {
    &&& 0 <= s < b.len()
    &&& b[s] != 10 && b[s] != 13
    &&& !is_word_start(b[s]) && !is_digit(b[s])
    &&& if b[s] == 34 {
        string_end(b, s + 1) is None
    } else if b[s] == 39 {
        char_end(b, s) is None
    } else {
        punct_at(b, s) is None
    }
}

/// When blanks lead from `p` to a place where no token can start, no token
/// follows `p`.
pub proof fn lemma_stuck_after(b: Seq<u8>, p: int, prev: bool, s: int)
    requires
        blank_to(b, p, s, !prev),
        !blank_start(b, s, !prev),
        stuck_at(b, s),
    ensures
        no_token_after(b, p, prev),
{
    assert forall|t: Token| #![trigger follows(b, p, prev, t)] token_fits(b, t) implies !follows(
        b,
        p,
        prev,
        t,
    ) by {
        if follows(b, p, prev, t) {
            reveal(follows);
            lemma_token_not_blank(b, p, prev, t);
            let c = t.span.start as int;
            if c < s {
                lemma_blank_stop(b, p, c, s, !prev);
            } else if s < c {
                lemma_blank_stop(b, p, s, c, !prev);
            } else {
                reveal(token_fits);
            }
        }
    }
}

/// Skipping blanks that include line breaks (when they do not end a
/// statement) keeps "no token can follow".
pub proof fn lemma_stuck_skip(b: Seq<u8>, p: int, m: int)
    requires
        blank_to(b, p, m, true),
        no_token_after(b, m, false),
    ensures
        no_token_after(b, p, false),
{
    assert forall|t: Token| #![trigger follows(b, p, false, t)] token_fits(b, t) implies !follows(
        b,
        p,
        false,
        t,
    ) by {
        if follows(b, p, false, t) {
            reveal(follows);
            lemma_token_not_blank(b, p, false, t);
            let c = t.span.start as int;
            if c < m {
                lemma_blank_stop(b, p, c, m, true);
            } else {
                lemma_blank_cut(b, p, m, c, true);
                assert(follows(b, m, false, t));
            }
        }
    }
}

} // verus!
