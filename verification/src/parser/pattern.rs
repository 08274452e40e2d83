//! Pattern parsing for match arms.

use vstd::prelude::*;
use vstd::string::*;
use crate::lexer::{Token, TokenKind};
use crate::ast::{Pattern, PatternField, LiteralValue};
use crate::diagnostics::Diagnostic;
use crate::text::{char_is_uppercase, str_eq};
use super::state::{Parser, fails_with_error};
use super::literal::{
    parse_signed, remove_underscores, float_text_ok, signed_value, strip_underscores, is_float_text,
};

verus! {

broadcast use vstd::string::group_string_axioms;

/// Whether `name` starts with an upper-case letter.
pub(crate) fn starts_upper(name: &str) -> (b: bool)
    ensures
        name@.len() > 0 && (name@[0] as u32) < 128 ==> (b == ('A' <= name@[0] <= 'Z')),
        name@.len() == 0 ==> !b,
{
    name.unicode_len() > 0 && char_is_uppercase(name.get_char(0))
}

/// The pattern that parsing from position `at` of `toks` gives, as far as
/// its first tokens decide it: `_` is the wildcard; an integer literal
/// matches its decimal value (zero when it has none); a float literal its
/// text (zero when it is not a number); a string literal its text between
/// the quotes; `true`, `false` and `none` themselves; `(` opens a tuple; a
/// name followed by `::` or by `.` starts a qualified variant, a
/// capitalised name followed by `(` a variant with fields, and any other
/// name binds; `ok`, `err` and `some` are variants of `Result`.
pub open spec fn pattern_starts(toks: Seq<Token>, at: int, p: Pattern) -> bool {
    let t = toks[at];
    if t.kind == TokenKind::Identifier && t.lexeme@ == "_"@ {
        p is Wildcard
    } else {
        match t.kind {
            TokenKind::IntLiteral => p matches Pattern::Literal { value: LiteralValue::Int(v), .. } && v == (
            match signed_value(strip_underscores(t.lexeme@), 10) {
                Some(x) => x,
                None => 0,
            }),
            TokenKind::FloatLiteral => p matches Pattern::Literal { value: LiteralValue::Float(f), .. } && f@ == (
            if is_float_text(strip_underscores(t.lexeme@)) {
                strip_underscores(t.lexeme@)
            } else {
                "0"@
            }),
            TokenKind::StringLiteral => p matches Pattern::Literal { value: LiteralValue::String(x), .. } && x@
                == t.lexeme@.subrange(1, t.lexeme@.len() - 1),
            TokenKind::True => p matches Pattern::Literal { value: LiteralValue::Bool(true), .. },
            TokenKind::False => p matches Pattern::Literal { value: LiteralValue::Bool(false), .. },
            TokenKind::None_ => p matches Pattern::Literal { value: LiteralValue::None_, .. },
            TokenKind::LParen => p is Tuple,
            TokenKind::Identifier => {
                let next = toks[at + 1].kind;
                if next == TokenKind::ColonColon || next == TokenKind::Dot {
                    p matches Pattern::Variant { path, .. } && path@.len() >= 1 && path@[0]@ == t.lexeme@
                } else if next == TokenKind::LParen && t.lexeme@.len() > 0 && (t.lexeme@[0] as u32) < 128 {
                    if 'A' <= t.lexeme@[0] <= 'Z' {
                        p matches Pattern::Variant { path, .. } && path@.len() == 1 && path@[0]@ == t.lexeme@
                    } else {
                        p matches Pattern::Binding { name, .. } && name@ == t.lexeme@
                    }
                } else if next != TokenKind::LParen {
                    p matches Pattern::Binding { name, .. } && name@ == t.lexeme@
                } else {
                    p is Variant || p is Binding
                }
            },
            TokenKind::Ok_ | TokenKind::Err_ | TokenKind::Some_ => p matches Pattern::Variant { path, .. }
                && path@.len() == 2 && path@[0]@ == "Result"@ && path@[1]@ == t.lexeme@,
            _ => false,
        }
    }
}

/// Position `at` of `toks` holds a pattern of one token: a literal
/// (`_` included), or a name that no `::`, `.` or `(` follows.
pub open spec fn lone_pattern(toks: Seq<Token>, at: int) -> bool {
    let k = toks[at].kind;
    ||| k == TokenKind::IntLiteral || k == TokenKind::FloatLiteral || k == TokenKind::StringLiteral
    ||| k == TokenKind::True || k == TokenKind::False || k == TokenKind::None_
    ||| k == TokenKind::Identifier && toks[at + 1].kind != TokenKind::ColonColon && toks[at + 1].kind
        != TokenKind::Dot && toks[at + 1].kind != TokenKind::LParen
}

/// From `p` on the tokens close a list of at most one one-token pattern:
/// a `)`, or a `lone_pattern` and a `)`.
pub open spec fn short_fields(toks: Seq<Token>, p: int) -> bool {
    ||| toks[p].kind == TokenKind::RParen
    ||| lone_pattern(toks, p) && toks[p + 1].kind == TokenKind::RParen
}

/// From `i` on the tokens spell a variant written with a dot whose fields,
/// if any, are a `short_fields` list: `Type.Variant` or
/// `Type.Variant(x)`.
pub open spec fn dotted_variant(toks: Seq<Token>, i: int) -> bool {
    &&& toks[i].kind == TokenKind::Identifier
    &&& !is_underscore(toks[i])
    &&& toks[i + 1].kind == TokenKind::Dot
    &&& toks[i + 2].kind == TokenKind::Identifier
    &&& toks[i + 3].kind == TokenKind::LParen ==> short_fields(toks, i + 4)
}

/// Token `t` is the wildcard `_`.
pub open spec fn is_underscore(t: Token) -> bool {
    t.kind == TokenKind::Identifier && t.lexeme@ == "_"@
}

/// `s` surely starts with an upper-case letter: an ASCII one.
pub open spec fn surely_upper(s: Seq<char>) -> bool {
    s.len() > 0 && (s[0] as u32) < 128 && 'A' <= s[0] <= 'Z'
}

/// `s` surely does not start with an upper-case letter: it is empty or
/// starts with another ASCII character.
pub open spec fn surely_not_upper(s: Seq<char>) -> bool {
    s.len() == 0 || ((s[0] as u32) < 128 && !('A' <= s[0] <= 'Z'))
}

/// The literal token `t` stands, as a pattern, for the value `v`.
pub open spec fn literal_of(t: Token, v: LiteralValue) -> bool {
    match t.kind {
        TokenKind::IntLiteral => v == LiteralValue::Int(
            match signed_value(strip_underscores(t.lexeme@), 10) {
                Some(x) => x,
                None => 0,
            },
        ),
        TokenKind::FloatLiteral => v matches LiteralValue::Float(f) && f@ == (if is_float_text(
            strip_underscores(t.lexeme@),
        ) {
            strip_underscores(t.lexeme@)
        } else {
            "0"@
        }),
        TokenKind::StringLiteral => v matches LiteralValue::String(x) && x@ == t.lexeme@.subrange(
            1,
            t.lexeme@.len() - 1,
        ),
        TokenKind::True => v == LiteralValue::Bool(true),
        TokenKind::False => v == LiteralValue::Bool(false),
        TokenKind::None_ => v == LiteralValue::None_,
        _ => false,
    }
}

/// The tokens from `i` on spell the qualified path `path`: at least two
/// names joined by `::`, not followed by another `::`.
pub open spec fn qualified_path(toks: Seq<Token>, i: int, path: Seq<String>) -> bool {
    &&& path.len() >= 2
    &&& path[0]@ == toks[i].lexeme@
    &&& forall|k: int|
        1 <= k < path.len() ==> {
            &&& (#[trigger] toks[i + 2 * k - 1]).kind == TokenKind::ColonColon
            &&& toks[i + 2 * k].kind == TokenKind::Identifier
            &&& path[k]@ == toks[i + 2 * k].lexeme@
        }
    &&& toks[i + 2 * path.len() - 1].kind != TokenKind::ColonColon
}

/// The tokens from `i` up to (not including) `e` spell the pattern `p`,
/// with the spans that the parser gives it.
pub open spec fn pattern_from(toks: Seq<Token>, i: int, e: int, p: Pattern) -> bool
    decreases p, 0int,
{
    let t = toks[i];
    &&& 0 <= i < e <= toks.len()
    &&& match p {
        Pattern::Wildcard { span } => e == i + 1 && is_underscore(t) && span == t.span,
        Pattern::Literal { value, span } => e == i + 1 && span == t.span && literal_of(t, value),
        Pattern::Binding { name, span } => {
            &&& e == i + 1
            &&& span == t.span
            &&& t.kind == TokenKind::Identifier && !is_underscore(t)
            &&& name@ == t.lexeme@
            &&& toks[i + 1].kind != TokenKind::ColonColon
            &&& toks[i + 1].kind != TokenKind::Dot
            &&& toks[i + 1].kind == TokenKind::LParen ==> !surely_upper(t.lexeme@)
        },
        Pattern::Tuple { elements, span } => {
            &&& t.kind == TokenKind::LParen
            &&& i + 1 <= e - 1
            &&& toks[e - 1].kind == TokenKind::RParen
            &&& span == t.span.spec_merge(toks[e - 1].span)
            &&& patterns_listed(toks, i + 1, e - 1, elements@)
        },
        Pattern::Variant { path, fields, span } => {
            &&& span == t.span.spec_merge(toks[e - 1].span)
            &&& if t.kind == TokenKind::Identifier && toks[i + 1].kind == TokenKind::ColonColon {
                let q = i + 2 * path@.len() - 1;
                &&& !is_underscore(t)
                &&& qualified_path(toks, i, path@)
                &&& if toks[q].kind == TokenKind::LParen {
                    &&& q + 1 <= e - 1
                    &&& toks[e - 1].kind == TokenKind::RParen
                    &&& fields_listed(toks, q + 1, e - 1, fields@)
                } else {
                    fields@.len() == 0 && e == q
                }
            } else if t.kind == TokenKind::Identifier && toks[i + 1].kind == TokenKind::Dot {
                &&& !is_underscore(t)
                &&& path@.len() == 2 && path@[0]@ == t.lexeme@
                &&& toks[i + 2].kind == TokenKind::Identifier && path@[1]@ == toks[i + 2].lexeme@
                &&& if toks[i + 3].kind == TokenKind::LParen {
                    &&& i + 4 <= e - 1
                    &&& toks[e - 1].kind == TokenKind::RParen
                    &&& fields_listed(toks, i + 4, e - 1, fields@)
                } else {
                    fields@.len() == 0 && e == i + 3
                }
            } else if t.kind == TokenKind::Identifier {
                &&& !is_underscore(t)
                &&& toks[i + 1].kind == TokenKind::LParen
                &&& !surely_not_upper(t.lexeme@)
                &&& path@.len() == 1 && path@[0]@ == t.lexeme@
                &&& i + 2 <= e - 1
                &&& toks[e - 1].kind == TokenKind::RParen
                &&& fields_listed(toks, i + 2, e - 1, fields@)
            } else {
                &&& (t.kind == TokenKind::Ok_ || t.kind == TokenKind::Err_ || t.kind == TokenKind::Some_)
                &&& toks[i + 1].kind == TokenKind::LParen
                &&& path@.len() == 2 && path@[0]@ == "Result"@ && path@[1]@ == t.lexeme@
                &&& i + 2 <= e - 1
                &&& toks[e - 1].kind == TokenKind::RParen
                &&& fields_listed(toks, i + 2, e - 1, fields@)
            }
        },
    }
}

/// The tokens from `j` up to `k` spell the patterns `ps`, each followed by
/// a comma.
pub open spec fn patterns_commaed(toks: Seq<Token>, j: int, k: int, ps: Seq<Pattern>) -> bool
    decreases ps, 1int,
{
    if ps.len() == 0 {
        k == j
    } else {
        exists|m: int|
            #![trigger toks[m]]
            {
                &&& patterns_commaed(toks, j, m, ps.subrange(0, ps.len() - 1))
                &&& toks[k - 1].kind == TokenKind::Comma
                &&& pattern_from(toks, m, k - 1, ps[ps.len() - 1])
            }
    }
}

/// The tokens from `j` up to the closing parenthesis at `c` spell the
/// patterns `ps`, separated by commas, with an optional comma at the end.
pub open spec fn patterns_listed(toks: Seq<Token>, j: int, c: int, ps: Seq<Pattern>) -> bool
    decreases ps, 2int,
{
    ||| patterns_commaed(toks, j, c, ps)
    ||| ps.len() > 0 && exists|m: int|
        #![trigger toks[m]]
        {
            &&& patterns_commaed(toks, j, m, ps.subrange(0, ps.len() - 1))
            &&& pattern_from(toks, m, c, ps[ps.len() - 1])
        }
}

/// The tokens from `m` up to `e` spell the unnamed field `f`: its pattern,
/// with the span from its first to its last token.
pub open spec fn field_from(toks: Seq<Token>, m: int, e: int, f: PatternField) -> bool
    decreases f, 0int,
{
    &&& f.name is None
    &&& 0 <= m < e
    &&& f.span == toks[m].span.spec_merge(toks[e - 1].span)
    &&& pattern_from(toks, m, e, f.pattern)
}

/// The tokens from `j` up to `k` spell the fields `fs`, each followed by a
/// comma.
pub open spec fn fields_commaed(toks: Seq<Token>, j: int, k: int, fs: Seq<PatternField>) -> bool
    decreases fs, 1int,
{
    if fs.len() == 0 {
        k == j
    } else {
        exists|m: int|
            #![trigger toks[m]]
            {
                &&& fields_commaed(toks, j, m, fs.subrange(0, fs.len() - 1))
                &&& toks[k - 1].kind == TokenKind::Comma
                &&& field_from(toks, m, k - 1, fs[fs.len() - 1])
            }
    }
}

/// The tokens from `j` up to the closing parenthesis at `c` spell the
/// fields `fs`, separated by commas, with an optional comma at the end.
pub open spec fn fields_listed(toks: Seq<Token>, j: int, c: int, fs: Seq<PatternField>) -> bool
    decreases fs, 2int,
{
    ||| fields_commaed(toks, j, c, fs)
    ||| fs.len() > 0 && exists|m: int|
        #![trigger toks[m]]
        {
            &&& fields_commaed(toks, j, m, fs.subrange(0, fs.len() - 1))
            &&& field_from(toks, m, c, fs[fs.len() - 1])
        }
}

/// A pattern and its comma extend a comma-separated run.
proof fn lemma_commaed_push(toks: Seq<Token>, j: int, m: int, k: int, ps: Seq<Pattern>, p: Pattern)
    requires
        patterns_commaed(toks, j, m, ps),
        toks[k - 1].kind == TokenKind::Comma,
        pattern_from(toks, m, k - 1, p),
    ensures
        patterns_commaed(toks, j, k, ps.push(p)),
{
    let qs = ps.push(p);
    assert(qs.subrange(0, qs.len() - 1) =~= ps);
    assert(qs[qs.len() - 1] == p);
    assert(patterns_commaed(toks, j, m, qs.subrange(0, qs.len() - 1)) && toks[m] == toks[m]);
}

/// A last pattern closes a comma-separated run into a list.
proof fn lemma_listed_last(toks: Seq<Token>, j: int, m: int, c: int, ps: Seq<Pattern>, p: Pattern)
    requires
        patterns_commaed(toks, j, m, ps),
        pattern_from(toks, m, c, p),
    ensures
        patterns_listed(toks, j, c, ps.push(p)),
{
    let qs = ps.push(p);
    assert(qs.subrange(0, qs.len() - 1) =~= ps);
    assert(qs[qs.len() - 1] == p);
    assert(patterns_commaed(toks, j, m, qs.subrange(0, qs.len() - 1)) && toks[m] == toks[m]);
}

/// A field and its comma extend a comma-separated run.
proof fn lemma_fields_commaed_push(
    toks: Seq<Token>,
    j: int,
    m: int,
    k: int,
    fs: Seq<PatternField>,
    f: PatternField,
)
    requires
        fields_commaed(toks, j, m, fs),
        toks[k - 1].kind == TokenKind::Comma,
        field_from(toks, m, k - 1, f),
    ensures
        fields_commaed(toks, j, k, fs.push(f)),
{
    let gs = fs.push(f);
    assert(gs.subrange(0, gs.len() - 1) =~= fs);
    assert(gs[gs.len() - 1] == f);
    assert(fields_commaed(toks, j, m, gs.subrange(0, gs.len() - 1)) && toks[m] == toks[m]);
}

/// A last field closes a comma-separated run into a list.
proof fn lemma_fields_listed_last(
    toks: Seq<Token>,
    j: int,
    m: int,
    c: int,
    fs: Seq<PatternField>,
    f: PatternField,
)
    requires
        fields_commaed(toks, j, m, fs),
        field_from(toks, m, c, f),
    ensures
        fields_listed(toks, j, c, fs.push(f)),
{
    let gs = fs.push(f);
    assert(gs.subrange(0, gs.len() - 1) =~= fs);
    assert(gs[gs.len() - 1] == f);
    assert(fields_commaed(toks, j, m, gs.subrange(0, gs.len() - 1)) && toks[m] == toks[m]);
}

/// The lexeme of `t` is empty or starts with an ASCII character, so that
/// whether it is capitalised is decided.
pub open spec fn decided_head(t: Token) -> bool {
    t.lexeme@.len() == 0 || (t.lexeme@[0] as u32) < 128
}

/// Every name token of `toks` that a `(` follows has a decided head.
pub open spec fn heads_decided(toks: Seq<Token>) -> bool {
    forall|k: int|
        0 <= k < toks.len() - 1 && toks[k].kind == TokenKind::Identifier && toks[k + 1].kind == TokenKind::LParen
            ==> #[trigger] decided_head(toks[k])
}

/// A pattern never starts with a closing parenthesis.
proof fn lemma_pattern_start(toks: Seq<Token>, i: int, e: int, p: Pattern)
    requires
        pattern_from(toks, i, e, p),
    ensures
        toks[i].kind != TokenKind::RParen,
        toks[i].kind != TokenKind::Eof,
        i < e,
{
}

/// A list of patterns is empty exactly where it starts at its end, and
/// otherwise starts with a token that can open a pattern.
proof fn lemma_listed_head(toks: Seq<Token>, j: int, c: int, ps: Seq<Pattern>)
    requires
        patterns_listed(toks, j, c, ps),
    ensures
        ps.len() == 0 ==> j == c,
        ps.len() > 0 ==> toks[j].kind != TokenKind::RParen && toks[j].kind != TokenKind::Eof,
{
    if ps.len() == 0 {
        lemma_listed_empty(toks, j, c, ps);
    } else {
        lemma_listed_first(toks, j, c, ps);
        let m = choose|m: int| #![trigger pattern_from(toks, j, m, ps[0])] pattern_from(toks, j, m, ps[0]);
        lemma_pattern_start(toks, j, m, ps[0]);
    }
}

/// The same for a list of fields.
proof fn lemma_fields_head(toks: Seq<Token>, j: int, c: int, fs: Seq<PatternField>)
    requires
        fields_listed(toks, j, c, fs),
    ensures
        fs.len() == 0 ==> j == c,
        fs.len() > 0 ==> toks[j].kind != TokenKind::RParen && toks[j].kind != TokenKind::Eof,
{
    if fs.len() == 0 {
        lemma_fields_empty(toks, j, c, fs);
    } else {
        lemma_fields_listed_first(toks, j, c, fs);
        let m = choose|m: int| #![trigger field_from(toks, j, m, fs[0])] field_from(toks, j, m, fs[0]);
        lemma_pattern_start(toks, j, m, fs[0].pattern);
    }
}

/// A comma-separated run ends no earlier than it starts.
proof fn lemma_commaed_order(toks: Seq<Token>, j: int, k: int, ps: Seq<Pattern>)
    requires
        patterns_commaed(toks, j, k, ps),
    ensures
        j <= k,
    decreases ps.len(),
{
    reveal_with_fuel(patterns_commaed, 2);
    if ps.len() > 0 {
        assert(exists|m: int|
            #![trigger toks[m]]
            {
                &&& patterns_commaed(toks, j, m, ps.subrange(0, ps.len() - 1))
                &&& toks[k - 1].kind == TokenKind::Comma
                &&& pattern_from(toks, m, k - 1, ps[ps.len() - 1])
            });
        let m0 = choose|m: int|
            #![trigger toks[m]]
            {
                &&& patterns_commaed(toks, j, m, ps.subrange(0, ps.len() - 1))
                &&& toks[k - 1].kind == TokenKind::Comma
                &&& pattern_from(toks, m, k - 1, ps[ps.len() - 1])
            };
        lemma_commaed_order(toks, j, m0, ps.subrange(0, ps.len() - 1));
    }
}

/// A comma-separated run of fields ends no earlier than it starts.
proof fn lemma_fields_commaed_order(toks: Seq<Token>, j: int, k: int, fs: Seq<PatternField>)
    requires
        fields_commaed(toks, j, k, fs),
    ensures
        j <= k,
    decreases fs.len(),
{
    reveal_with_fuel(fields_commaed, 2);
    if fs.len() > 0 {
        assert(exists|m: int|
            #![trigger toks[m]]
            {
                &&& fields_commaed(toks, j, m, fs.subrange(0, fs.len() - 1))
                &&& toks[k - 1].kind == TokenKind::Comma
                &&& field_from(toks, m, k - 1, fs[fs.len() - 1])
            });
        let m0 = choose|m: int|
            #![trigger toks[m]]
            {
                &&& fields_commaed(toks, j, m, fs.subrange(0, fs.len() - 1))
                &&& toks[k - 1].kind == TokenKind::Comma
                &&& field_from(toks, m, k - 1, fs[fs.len() - 1])
            };
        lemma_fields_commaed_order(toks, j, m0, fs.subrange(0, fs.len() - 1));
    }
}

/// The first pattern of a comma-separated run and the comma after it.
proof fn lemma_commaed_first(toks: Seq<Token>, j: int, k: int, ps: Seq<Pattern>)
    requires
        patterns_commaed(toks, j, k, ps),
        ps.len() > 0,
    ensures
        exists|m: int|
            #![trigger pattern_from(toks, j, m, ps[0])]
            pattern_from(toks, j, m, ps[0]) && toks[m].kind == TokenKind::Comma && patterns_commaed(
                toks,
                m + 1,
                k,
                ps.drop_first(),
            ),
    decreases ps.len(),
{
    let n = ps.len();
    let init = ps.subrange(0, n - 1);
    reveal_with_fuel(patterns_commaed, 2);
    assert(exists|m: int|
        #![trigger toks[m]]
        {
            &&& patterns_commaed(toks, j, m, ps.subrange(0, ps.len() - 1))
            &&& toks[k - 1].kind == TokenKind::Comma
            &&& pattern_from(toks, m, k - 1, ps[ps.len() - 1])
        });
    let m0 = choose|m: int|
        #![trigger toks[m]]
        {
            &&& patterns_commaed(toks, j, m, ps.subrange(0, ps.len() - 1))
            &&& toks[k - 1].kind == TokenKind::Comma
            &&& pattern_from(toks, m, k - 1, ps[ps.len() - 1])
        };
    if n == 1 {
        assert(m0 == j);
        assert(ps.drop_first() =~= Seq::<Pattern>::empty());
        assert(toks[k - 1] == toks[k - 1]);
    } else {
        lemma_commaed_first(toks, j, m0, init);
        let m1 = choose|m: int|
            #![trigger pattern_from(toks, j, m, init[0])]
            pattern_from(toks, j, m, init[0]) && toks[m].kind == TokenKind::Comma && patterns_commaed(
                toks,
                m + 1,
                m0,
                init.drop_first(),
            );
        let rest = ps.drop_first();
        assert(rest.subrange(0, rest.len() - 1) =~= init.drop_first());
        assert(rest[rest.len() - 1] == ps[n - 1]);
        assert(patterns_commaed(toks, m1 + 1, m0, rest.subrange(0, rest.len() - 1)) && toks[m0] == toks[m0]);
        assert(patterns_commaed(toks, m1 + 1, k, rest));
        assert(init[0] == ps[0]);
        assert(toks[m1] == toks[m1]);
    }
}

/// The first pattern of a list, and what follows it: a comma and the rest
/// of the list, or the end of a list of one.
proof fn lemma_listed_first(toks: Seq<Token>, j: int, c: int, ps: Seq<Pattern>)
    requires
        patterns_listed(toks, j, c, ps),
        ps.len() > 0,
    ensures
        exists|m: int|
            #![trigger pattern_from(toks, j, m, ps[0])]
            pattern_from(toks, j, m, ps[0]) && ((toks[m].kind == TokenKind::Comma && patterns_listed(
                toks,
                m + 1,
                c,
                ps.drop_first(),
            )) || (ps.len() == 1 && m == c)),
{
    reveal_with_fuel(patterns_listed, 2);
    reveal_with_fuel(patterns_commaed, 2);
    let n = ps.len();
    if patterns_commaed(toks, j, c, ps) {
        lemma_commaed_first(toks, j, c, ps);
        let m = choose|m: int|
            #![trigger pattern_from(toks, j, m, ps[0])]
            pattern_from(toks, j, m, ps[0]) && toks[m].kind == TokenKind::Comma && patterns_commaed(
                toks,
                m + 1,
                c,
                ps.drop_first(),
            );
        assert(patterns_listed(toks, m + 1, c, ps.drop_first()));
        assert(pattern_from(toks, j, m, ps[0]) && ((toks[m].kind == TokenKind::Comma && patterns_listed(
            toks,
            m + 1,
            c,
            ps.drop_first(),
        )) || (ps.len() == 1 && m == c)));
    } else {
        let init = ps.subrange(0, n - 1);
        assert(exists|m: int|
            #![trigger toks[m]]
            {
                &&& patterns_commaed(toks, j, m, ps.subrange(0, ps.len() - 1))
                &&& pattern_from(toks, m, c, ps[ps.len() - 1])
            });
        let m0 = choose|m: int|
            #![trigger toks[m]]
            {
                &&& patterns_commaed(toks, j, m, ps.subrange(0, ps.len() - 1))
                &&& pattern_from(toks, m, c, ps[ps.len() - 1])
            };
        if n == 1 {
            assert(m0 == j);
            assert(pattern_from(toks, j, c, ps[0]) && ((toks[c].kind == TokenKind::Comma && patterns_listed(
                toks,
                c + 1,
                c,
                ps.drop_first(),
            )) || (ps.len() == 1 && c == c)));
        } else {
            lemma_commaed_first(toks, j, m0, init);
            let m1 = choose|m: int|
                #![trigger pattern_from(toks, j, m, init[0])]
                pattern_from(toks, j, m, init[0]) && toks[m].kind == TokenKind::Comma && patterns_commaed(
                    toks,
                    m + 1,
                    m0,
                    init.drop_first(),
                );
            let rest = ps.drop_first();
            assert(rest.subrange(0, rest.len() - 1) =~= init.drop_first());
            assert(rest[rest.len() - 1] == ps[n - 1]);
            assert(patterns_commaed(toks, m1 + 1, m0, rest.subrange(0, rest.len() - 1)) && toks[m0] == toks[m0]);
            assert(patterns_listed(toks, m1 + 1, c, rest));
            assert(init[0] == ps[0]);
            assert(pattern_from(toks, j, m1, ps[0]) && ((toks[m1].kind == TokenKind::Comma && patterns_listed(
                toks,
                m1 + 1,
                c,
                ps.drop_first(),
            )) || (ps.len() == 1 && m1 == c)));
        }
    }
}

/// The first field of a comma-separated run and the comma after it.
proof fn lemma_fields_commaed_first(toks: Seq<Token>, j: int, k: int, fs: Seq<PatternField>)
    requires
        fields_commaed(toks, j, k, fs),
        fs.len() > 0,
    ensures
        exists|m: int|
            #![trigger field_from(toks, j, m, fs[0])]
            field_from(toks, j, m, fs[0]) && toks[m].kind == TokenKind::Comma && fields_commaed(
                toks,
                m + 1,
                k,
                fs.drop_first(),
            ),
    decreases fs.len(),
{
    let n = fs.len();
    let init = fs.subrange(0, n - 1);
    reveal_with_fuel(fields_commaed, 2);
    assert(exists|m: int|
        #![trigger toks[m]]
        {
            &&& fields_commaed(toks, j, m, fs.subrange(0, fs.len() - 1))
            &&& toks[k - 1].kind == TokenKind::Comma
            &&& field_from(toks, m, k - 1, fs[fs.len() - 1])
        });
    let m0 = choose|m: int|
        #![trigger toks[m]]
        {
            &&& fields_commaed(toks, j, m, fs.subrange(0, fs.len() - 1))
            &&& toks[k - 1].kind == TokenKind::Comma
            &&& field_from(toks, m, k - 1, fs[fs.len() - 1])
        };
    if n == 1 {
        assert(m0 == j);
        assert(fs.drop_first() =~= Seq::<PatternField>::empty());
        assert(toks[k - 1] == toks[k - 1]);
    } else {
        lemma_fields_commaed_first(toks, j, m0, init);
        let m1 = choose|m: int|
            #![trigger field_from(toks, j, m, init[0])]
            field_from(toks, j, m, init[0]) && toks[m].kind == TokenKind::Comma && fields_commaed(
                toks,
                m + 1,
                m0,
                init.drop_first(),
            );
        let rest = fs.drop_first();
        assert(rest.subrange(0, rest.len() - 1) =~= init.drop_first());
        assert(rest[rest.len() - 1] == fs[n - 1]);
        assert(fields_commaed(toks, m1 + 1, m0, rest.subrange(0, rest.len() - 1)) && toks[m0] == toks[m0]);
        assert(fields_commaed(toks, m1 + 1, k, rest));
        assert(init[0] == fs[0]);
        assert(toks[m1] == toks[m1]);
    }
}

/// The first field of a list, and what follows it.
proof fn lemma_fields_listed_first(toks: Seq<Token>, j: int, c: int, fs: Seq<PatternField>)
    requires
        fields_listed(toks, j, c, fs),
        fs.len() > 0,
    ensures
        exists|m: int|
            #![trigger field_from(toks, j, m, fs[0])]
            field_from(toks, j, m, fs[0]) && ((toks[m].kind == TokenKind::Comma && fields_listed(
                toks,
                m + 1,
                c,
                fs.drop_first(),
            )) || (fs.len() == 1 && m == c)),
{
    reveal_with_fuel(fields_listed, 2);
    reveal_with_fuel(fields_commaed, 2);
    let n = fs.len();
    if fields_commaed(toks, j, c, fs) {
        lemma_fields_commaed_first(toks, j, c, fs);
        let m = choose|m: int|
            #![trigger field_from(toks, j, m, fs[0])]
            field_from(toks, j, m, fs[0]) && toks[m].kind == TokenKind::Comma && fields_commaed(
                toks,
                m + 1,
                c,
                fs.drop_first(),
            );
        assert(fields_listed(toks, m + 1, c, fs.drop_first()));
        assert(field_from(toks, j, m, fs[0]) && ((toks[m].kind == TokenKind::Comma && fields_listed(
            toks,
            m + 1,
            c,
            fs.drop_first(),
        )) || (fs.len() == 1 && m == c)));
    } else {
        let init = fs.subrange(0, n - 1);
        assert(exists|m: int|
            #![trigger toks[m]]
            {
                &&& fields_commaed(toks, j, m, fs.subrange(0, fs.len() - 1))
                &&& field_from(toks, m, c, fs[fs.len() - 1])
            });
        let m0 = choose|m: int|
            #![trigger toks[m]]
            {
                &&& fields_commaed(toks, j, m, fs.subrange(0, fs.len() - 1))
                &&& field_from(toks, m, c, fs[fs.len() - 1])
            };
        if n == 1 {
            assert(m0 == j);
            assert(field_from(toks, j, c, fs[0]) && ((toks[c].kind == TokenKind::Comma && fields_listed(
                toks,
                c + 1,
                c,
                fs.drop_first(),
            )) || (fs.len() == 1 && c == c)));
        } else {
            lemma_fields_commaed_first(toks, j, m0, init);
            let m1 = choose|m: int|
                #![trigger field_from(toks, j, m, init[0])]
                field_from(toks, j, m, init[0]) && toks[m].kind == TokenKind::Comma && fields_commaed(
                    toks,
                    m + 1,
                    m0,
                    init.drop_first(),
                );
            let rest = fs.drop_first();
            assert(rest.subrange(0, rest.len() - 1) =~= init.drop_first());
            assert(rest[rest.len() - 1] == fs[n - 1]);
            assert(fields_commaed(toks, m1 + 1, m0, rest.subrange(0, rest.len() - 1)) && toks[m0] == toks[m0]);
            assert(fields_listed(toks, m1 + 1, c, rest));
            assert(init[0] == fs[0]);
            assert(field_from(toks, j, m1, fs[0]) && ((toks[m1].kind == TokenKind::Comma && fields_listed(
                toks,
                m1 + 1,
                c,
                fs.drop_first(),
            )) || (fs.len() == 1 && m1 == c)));
        }
    }
}

/// An empty list ends where it starts.
proof fn lemma_listed_empty(toks: Seq<Token>, j: int, c: int, ps: Seq<Pattern>)
    requires
        patterns_listed(toks, j, c, ps),
        ps.len() == 0,
    ensures
        c == j,
{
    reveal_with_fuel(patterns_listed, 2);
    reveal_with_fuel(patterns_commaed, 2);
}

/// An empty list of fields ends where it starts.
proof fn lemma_fields_empty(toks: Seq<Token>, j: int, c: int, fs: Seq<PatternField>)
    requires
        fields_listed(toks, j, c, fs),
        fs.len() == 0,
    ensures
        c == j,
{
    reveal_with_fuel(fields_listed, 2);
    reveal_with_fuel(fields_commaed, 2);
}

/// A list ends no earlier than it starts.
proof fn lemma_listed_order(toks: Seq<Token>, j: int, c: int, ps: Seq<Pattern>)
    requires
        patterns_listed(toks, j, c, ps),
    ensures
        j <= c,
{
    reveal_with_fuel(patterns_listed, 2);
    if patterns_commaed(toks, j, c, ps) {
        lemma_commaed_order(toks, j, c, ps);
    } else {
        let m0 = choose|m: int|
            #![trigger toks[m]]
            {
                &&& patterns_commaed(toks, j, m, ps.subrange(0, ps.len() - 1))
                &&& pattern_from(toks, m, c, ps[ps.len() - 1])
            };
        lemma_commaed_order(toks, j, m0, ps.subrange(0, ps.len() - 1));
    }
}

/// A list of fields ends no earlier than it starts.
proof fn lemma_fields_listed_order(toks: Seq<Token>, j: int, c: int, fs: Seq<PatternField>)
    requires
        fields_listed(toks, j, c, fs),
    ensures
        j <= c,
{
    reveal_with_fuel(fields_listed, 2);
    if fields_commaed(toks, j, c, fs) {
        lemma_fields_commaed_order(toks, j, c, fs);
    } else {
        let m0 = choose|m: int|
            #![trigger toks[m]]
            {
                &&& fields_commaed(toks, j, m, fs.subrange(0, fs.len() - 1))
                &&& field_from(toks, m, c, fs[fs.len() - 1])
            };
        lemma_fields_commaed_order(toks, j, m0, fs.subrange(0, fs.len() - 1));
    }
}

/// Two lists from the same place, each closed by a `)`, end at the same
/// place.
#[verifier::spinoff_prover]
#[verifier::rlimit(100)]
proof fn lemma_listed_end(toks: Seq<Token>, j: int, c1: int, ps1: Seq<Pattern>, c2: int, ps2: Seq<Pattern>)
    requires
        patterns_listed(toks, j, c1, ps1),
        patterns_listed(toks, j, c2, ps2),
        toks[c1].kind == TokenKind::RParen,
        toks[c2].kind == TokenKind::RParen,
        heads_decided(toks),
    ensures
        c1 == c2,
    decreases (c1 - j) + (c2 - j), 1int,
{
    lemma_listed_order(toks, j, c1, ps1);
    lemma_listed_order(toks, j, c2, ps2);
    if ps1.len() == 0 || ps2.len() == 0 {
        if ps1.len() == 0 {
            lemma_listed_empty(toks, j, c1, ps1);
        }
        if ps2.len() == 0 {
            lemma_listed_empty(toks, j, c2, ps2);
        }
        if ps1.len() > 0 {
            lemma_listed_first(toks, j, c1, ps1);
            let m = choose|m: int|
                #![trigger pattern_from(toks, j, m, ps1[0])]
                pattern_from(toks, j, m, ps1[0]) && ((toks[m].kind == TokenKind::Comma && patterns_listed(
                    toks,
                    m + 1,
                    c1,
                    ps1.drop_first(),
                )) || (ps1.len() == 1 && m == c1));
            lemma_pattern_start(toks, j, m, ps1[0]);
        } else if ps2.len() > 0 {
            lemma_listed_first(toks, j, c2, ps2);
            let m = choose|m: int|
                #![trigger pattern_from(toks, j, m, ps2[0])]
                pattern_from(toks, j, m, ps2[0]) && ((toks[m].kind == TokenKind::Comma && patterns_listed(
                    toks,
                    m + 1,
                    c2,
                    ps2.drop_first(),
                )) || (ps2.len() == 1 && m == c2));
            lemma_pattern_start(toks, j, m, ps2[0]);
        }
    } else {
        lemma_listed_first(toks, j, c1, ps1);
        let m1 = choose|m: int|
            #![trigger pattern_from(toks, j, m, ps1[0])]
            pattern_from(toks, j, m, ps1[0]) && ((toks[m].kind == TokenKind::Comma && patterns_listed(
                toks,
                m + 1,
                c1,
                ps1.drop_first(),
            )) || (ps1.len() == 1 && m == c1));
        lemma_listed_first(toks, j, c2, ps2);
        let m2 = choose|m: int|
            #![trigger pattern_from(toks, j, m, ps2[0])]
            pattern_from(toks, j, m, ps2[0]) && ((toks[m].kind == TokenKind::Comma && patterns_listed(
                toks,
                m + 1,
                c2,
                ps2.drop_first(),
            )) || (ps2.len() == 1 && m == c2));
        lemma_pattern_start(toks, j, m1, ps1[0]);
        lemma_pattern_start(toks, j, m2, ps2[0]);
        if toks[m1].kind == TokenKind::Comma {
            lemma_listed_order(toks, m1 + 1, c1, ps1.drop_first());
        }
        if toks[m2].kind == TokenKind::Comma {
            lemma_listed_order(toks, m2 + 1, c2, ps2.drop_first());
        }
        law_pattern_end_unique(toks, j, m1, ps1[0], m2, ps2[0]);
        if toks[m1].kind == TokenKind::Comma {
            lemma_listed_order(toks, m1 + 1, c1, ps1.drop_first());
            lemma_listed_order(toks, m1 + 1, c2, ps2.drop_first());
            lemma_listed_end(toks, m1 + 1, c1, ps1.drop_first(), c2, ps2.drop_first());
        }
    }
}

/// Two lists of fields from the same place, each closed by a `)`, end at
/// the same place.
#[verifier::spinoff_prover]
#[verifier::rlimit(100)]
proof fn lemma_fields_end(toks: Seq<Token>, j: int, c1: int, fs1: Seq<PatternField>, c2: int, fs2: Seq<PatternField>)
    requires
        fields_listed(toks, j, c1, fs1),
        fields_listed(toks, j, c2, fs2),
        toks[c1].kind == TokenKind::RParen,
        toks[c2].kind == TokenKind::RParen,
        heads_decided(toks),
    ensures
        c1 == c2,
    decreases (c1 - j) + (c2 - j), 1int,
{
    lemma_fields_listed_order(toks, j, c1, fs1);
    lemma_fields_listed_order(toks, j, c2, fs2);
    if fs1.len() == 0 || fs2.len() == 0 {
        if fs1.len() == 0 {
            lemma_fields_empty(toks, j, c1, fs1);
        }
        if fs2.len() == 0 {
            lemma_fields_empty(toks, j, c2, fs2);
        }
        if fs1.len() > 0 {
            lemma_fields_listed_first(toks, j, c1, fs1);
            let m = choose|m: int|
                #![trigger field_from(toks, j, m, fs1[0])]
                field_from(toks, j, m, fs1[0]) && ((toks[m].kind == TokenKind::Comma && fields_listed(
                    toks,
                    m + 1,
                    c1,
                    fs1.drop_first(),
                )) || (fs1.len() == 1 && m == c1));
            lemma_pattern_start(toks, j, m, fs1[0].pattern);
        } else if fs2.len() > 0 {
            lemma_fields_listed_first(toks, j, c2, fs2);
            let m = choose|m: int|
                #![trigger field_from(toks, j, m, fs2[0])]
                field_from(toks, j, m, fs2[0]) && ((toks[m].kind == TokenKind::Comma && fields_listed(
                    toks,
                    m + 1,
                    c2,
                    fs2.drop_first(),
                )) || (fs2.len() == 1 && m == c2));
            lemma_pattern_start(toks, j, m, fs2[0].pattern);
        }
    } else {
        lemma_fields_listed_first(toks, j, c1, fs1);
        let m1 = choose|m: int|
            #![trigger field_from(toks, j, m, fs1[0])]
            field_from(toks, j, m, fs1[0]) && ((toks[m].kind == TokenKind::Comma && fields_listed(
                toks,
                m + 1,
                c1,
                fs1.drop_first(),
            )) || (fs1.len() == 1 && m == c1));
        lemma_fields_listed_first(toks, j, c2, fs2);
        let m2 = choose|m: int|
            #![trigger field_from(toks, j, m, fs2[0])]
            field_from(toks, j, m, fs2[0]) && ((toks[m].kind == TokenKind::Comma && fields_listed(
                toks,
                m + 1,
                c2,
                fs2.drop_first(),
            )) || (fs2.len() == 1 && m == c2));
        lemma_pattern_start(toks, j, m1, fs1[0].pattern);
        lemma_pattern_start(toks, j, m2, fs2[0].pattern);
        if toks[m1].kind == TokenKind::Comma {
            lemma_fields_listed_order(toks, m1 + 1, c1, fs1.drop_first());
        }
        if toks[m2].kind == TokenKind::Comma {
            lemma_fields_listed_order(toks, m2 + 1, c2, fs2.drop_first());
        }
        law_pattern_end_unique(toks, j, m1, fs1[0].pattern, m2, fs2[0].pattern);
        if toks[m1].kind == TokenKind::Comma {
            lemma_fields_listed_order(toks, m1 + 1, c1, fs1.drop_first());
            lemma_fields_listed_order(toks, m1 + 1, c2, fs2.drop_first());
            lemma_fields_end(toks, m1 + 1, c1, fs1.drop_first(), c2, fs2.drop_first());
        }
    }
}

/// Where a pattern ends is decided by where it starts: two patterns
/// spelled from the same place, in a stream whose capitalisation is
/// decided, end at the same place.
#[verifier::rlimit(60)]
pub proof fn law_pattern_end_unique(toks: Seq<Token>, i: int, e1: int, p1: Pattern, e2: int, p2: Pattern)
    requires
        pattern_from(toks, i, e1, p1),
        pattern_from(toks, i, e2, p2),
        heads_decided(toks),
    ensures
        e1 == e2,
    decreases (e1 - i) + (e2 - i), 0int,
{
    let t = toks[i];
    if i + 1 < toks.len() && t.kind == TokenKind::Identifier && toks[i + 1].kind == TokenKind::LParen {
        assert(decided_head(toks[i]));
    }
    match (p1, p2) {
        (Pattern::Tuple { elements: a, .. }, Pattern::Tuple { elements: b, .. }) => {
            lemma_listed_end(toks, i + 1, e1 - 1, a@, e2 - 1, b@);
        },
        (Pattern::Variant { path: pa, fields: fa, .. }, Pattern::Variant { path: pb, fields: fb, .. }) => {
            if t.kind == TokenKind::Identifier && toks[i + 1].kind == TokenKind::ColonColon {
                let la = pa@.len() as int;
                let lb = pb@.len() as int;
                if la < lb {
                    assert(toks[i + 2 * la - 1].kind == TokenKind::ColonColon);
                } else if lb < la {
                    assert(toks[i + 2 * lb - 1].kind == TokenKind::ColonColon);
                }
                let q = i + 2 * la - 1;
                if toks[q].kind == TokenKind::LParen {
                    lemma_fields_end(toks, q + 1, e1 - 1, fa@, e2 - 1, fb@);
                }
            } else if t.kind == TokenKind::Identifier && toks[i + 1].kind == TokenKind::Dot {
                if toks[i + 3].kind == TokenKind::LParen {
                    lemma_fields_end(toks, i + 4, e1 - 1, fa@, e2 - 1, fb@);
                }
            } else {
                lemma_fields_end(toks, i + 2, e1 - 1, fa@, e2 - 1, fb@);
            }
        },
        _ => {},
    }
}

impl Parser {
    /// Parse a pattern (used in match arms). When it records no error, the
    /// pattern it gives is the one that the tokens it read spell.
    pub(crate) fn parse_pattern(&mut self) -> (r: Result<Pattern, Diagnostic>)
        requires
            old(self).wf(),
        ensures
            final(self).moved_on(old(self)),
            fails_with_error(r),
            r is Ok ==> pattern_starts(old(self).toks(), old(self).at() as int, r->Ok_0),
            r is Ok && final(self).log().len() == old(self).log().len() ==> pattern_from(
                old(self).toks(),
                old(self).at() as int,
                final(self).at() as int,
                r->Ok_0,
            ),
            lone_pattern(old(self).toks(), old(self).at() as int) ==> r is Ok && final(self).log() == old(
                self,
            ).log() && final(self).at() == old(self).at() + 1,
            dotted_variant(old(self).toks(), old(self).at() as int) ==> r is Ok && final(self).log() == old(
                self,
            ).log(),
            heads_decided(old(self).toks()) && (exists|e: int, p: Pattern|
                pattern_from(old(self).toks(), old(self).at() as int, e, p)) ==> r is Ok && final(self).log()
                == old(self).log(),
        decreases old(self).toks().len() - old(self).at(), 20int,
    {
        proof {
            reveal_strlit("_");
            reveal_strlit("0");
            reveal_strlit("Result");
        }
        let ghost toks = self.toks();
        let ghost i = self.at() as int;
        let ghost n0 = self.log().len();
        let ghost good = heads_decided(toks) && exists|e: int, p: Pattern| pattern_from(toks, i, e, p);
        let ghost (we, wp) = choose|e: int, p: Pattern| pattern_from(toks, i, e, p);
        let ghost welems: Seq<Pattern> = match wp {
            Pattern::Tuple { elements, .. } => elements@,
            _ => Seq::empty(),
        };
        let ghost wpath: Seq<String> = match wp {
            Pattern::Variant { path, .. } => path@,
            _ => Seq::empty(),
        };
        let ghost wfields: Seq<PatternField> = match wp {
            Pattern::Variant { fields, .. } => fields@,
            _ => Seq::empty(),
        };
        let kind = self.current_kind();
        if kind == TokenKind::Identifier && str_eq(self.current().lexeme.as_str(), "_") {
            let span = self.current_span();
            self.advance();
            return Ok(Pattern::Wildcard { span });
        }
        match kind {
            TokenKind::IntLiteral => {
                let span = self.current_span();
                let text = self.current().lexeme.clone();
                self.advance();
                // a decimal value, or zero when the text is not one
                let cleaned = remove_underscores(text.as_str());
                let value = match parse_signed(cleaned.as_str(), 10) {
                    Some(v) => v,
                    None => 0,
                };
                Ok(Pattern::Literal { value: LiteralValue::Int(value), span })
            },
            TokenKind::FloatLiteral => {
                let span = self.current_span();
                let text = self.current().lexeme.clone();
                self.advance();
                // the literal's text, or zero when it is not a valid number
                let cleaned = remove_underscores(text.as_str());
                let value = if float_text_ok(cleaned.as_str()) {
                    cleaned
                } else {
                    String::from_str("0")
                };
                Ok(Pattern::Literal { value: LiteralValue::Float(value), span })
            },
            TokenKind::StringLiteral => {
                let span = self.current_span();
                let raw = self.current().lexeme.clone();
                self.advance();
                let n = raw.as_str().unicode_len();
                let inner = raw.as_str().substring_char(1, n - 1);
                Ok(Pattern::Literal { value: LiteralValue::String(String::from_str(inner)), span })
            },
            TokenKind::True => {
                let span = self.current_span();
                self.advance();
                Ok(Pattern::Literal { value: LiteralValue::Bool(true), span })
            },
            TokenKind::False => {
                let span = self.current_span();
                self.advance();
                Ok(Pattern::Literal { value: LiteralValue::Bool(false), span })
            },
            TokenKind::None_ => {
                let span = self.current_span();
                self.advance();
                Ok(Pattern::Literal { value: LiteralValue::None_, span })
            },
            TokenKind::LParen => {
                let start = self.current_span();
                self.advance();
                let ghost j = self.at() as int;
                let ghost mut rest: Seq<Pattern> = welems;
                proof {
                    if good {
                        lemma_listed_head(toks, j, we - 1, rest);
                    }
                }
                let mut elements: Vec<Pattern> = Vec::new();
                while !self.check(TokenKind::RParen) && !self.at_end()
                    invariant_except_break
                        self.log().len() == n0 ==> patterns_commaed(toks, j, self.at() as int, elements@),
                        good ==> {
                            &&& self.log() == old(self).log()
                            &&& patterns_listed(toks, self.at() as int, we - 1, rest)
                            &&& rest.len() == 0 ==> self.at() == we - 1
                            &&& rest.len() > 0 ==> toks[self.at() as int].kind != TokenKind::RParen
                                && toks[self.at() as int].kind != TokenKind::Eof
                        },
                    invariant
                        good ==> heads_decided(toks) && toks[we - 1].kind == TokenKind::RParen,
                        good == (heads_decided(toks) && exists|e: int, p: Pattern| pattern_from(toks, i, e, p)),
                        i == old(self).at(),
                        self.moved_on(old(self)),
                        old(self).cur().kind == TokenKind::LParen,
                        self.at() > old(self).at(),
                        j <= self.at(),
                        toks == old(self).toks(),
                        n0 == old(self).log().len(),
                    ensures
                        self.moved_on(old(self)),
                        j <= self.at(),
                        self.log().len() == n0 ==> patterns_listed(toks, j, self.at() as int, elements@),
                        good ==> self.log() == old(self).log() && self.at() == we - 1,
                    decreases self.toks().len() - self.at(),
                {
                    let ghost m = self.at() as int;
                    let ghost before = elements@;
                    let ghost wm: int = 0;
                    proof {
                        if good {
                            lemma_listed_first(toks, m, we - 1, rest);
                            wm = choose|k: int|
                                #![trigger pattern_from(toks, m, k, rest[0])]
                                pattern_from(toks, m, k, rest[0]) && ((toks[k].kind == TokenKind::Comma
                                    && patterns_listed(toks, k + 1, we - 1, rest.drop_first())) || (rest.len()
                                    == 1 && k == we - 1));
                        }
                    }
                    let p = match self.parse_pattern() {
                        Ok(p) => p,
                        Err(d) => return Err(d),
                    };
                    let ghost e1 = self.at() as int;
                    proof {
                        if good {
                            law_pattern_end_unique(toks, m, e1, p, wm, rest[0]);
                        }
                    }
                    let ghost pv = p;
                    elements.push(p);
                    if !self.match_token(TokenKind::Comma) {
                        proof {
                            if self.log().len() == n0 {
                                lemma_listed_last(toks, j, m, e1, before, pv);
                            }
                        }
                        break;
                    }
                    proof {
                        if self.log().len() == n0 {
                            lemma_commaed_push(toks, j, m, self.at() as int, before, pv);
                        }
                        if good {
                            rest = rest.drop_first();
                            lemma_listed_head(toks, self.at() as int, we - 1, rest);
                        }
                    }
                }
                self.expect(TokenKind::RParen);
                Ok(Pattern::Tuple { elements, span: start.merge(self.previous_span()) })
            },
            TokenKind::Identifier => {
                let start = self.current_span();
                let name = self.expect_identifier("pattern");
                if self.check(TokenKind::ColonColon) {
                    // a qualified variant: Type::Variant(fields)
                    let mut path = vec![name];
                    while self.match_token(TokenKind::ColonColon)
                        invariant
                            self.moved_on(old(self)),
                            self.at() > old(self).at(),
                            toks == old(self).toks(),
                            n0 == old(self).log().len(),
                            i == old(self).at(),
                            path@.len() >= 1,
                            path@[0]@ == old(self).toks()[old(self).at() as int].lexeme@,
                            good ==> {
                                &&& self.log() == old(self).log()
                                &&& qualified_path(toks, i, wpath)
                                &&& path@.len() <= wpath.len()
                                &&& path@.len() < wpath.len() ==> toks[i + 2 * path@.len() - 1].kind
                                    == TokenKind::ColonColon
                            },
                            self.log().len() == n0 ==> {
                                &&& self.at() == i + 2 * path@.len() - 1
                                &&& forall|k: int|
                                    1 <= k < path@.len() ==> {
                                        &&& (#[trigger] toks[i + 2 * k - 1]).kind == TokenKind::ColonColon
                                        &&& toks[i + 2 * k].kind == TokenKind::Identifier
                                        &&& path@[k]@ == toks[i + 2 * k].lexeme@
                                    }
                            },
                        decreases self.toks().len() - self.at(),
                    {
                        let ghost before = path@;
                        let ghost cc = self.at() as int - 1;
                        proof {
                            if good {
                                let l = before.len() as int;
                                if l >= wpath.len() {
                                    assert(toks[i + 2 * wpath.len() - 1].kind != TokenKind::ColonColon);
                                }
                                assert(toks[i + 2 * l - 1].kind == TokenKind::ColonColon);
                                assert(toks[i + 2 * l].kind == TokenKind::Identifier);
                            }
                        }
                        let segment = self.expect_identifier("variant name");
                        path.push(segment);
                        proof {
                            if good && path@.len() < wpath.len() {
                                let l = path@.len() as int;
                                assert(toks[i + 2 * l - 1].kind == TokenKind::ColonColon);
                            }
                        }
                        proof {
                            if self.log().len() == n0 {
                                assert forall|k: int| 1 <= k < path@.len() implies {
                                    &&& (#[trigger] toks[i + 2 * k - 1]).kind == TokenKind::ColonColon
                                    &&& toks[i + 2 * k].kind == TokenKind::Identifier
                                    &&& path@[k]@ == toks[i + 2 * k].lexeme@
                                } by {
                                    if k < path@.len() - 1 {
                                        assert(path@[k] == before[k]);
                                    } else {
                                        assert(i + 2 * k - 1 == cc);
                                    }
                                }
                            }
                        }
                    }
                    let ghost q = self.at() as int;
                    proof {
                        if good {
                            if path@.len() < wpath.len() {
                                assert(toks[i + 2 * path@.len() - 1].kind == TokenKind::ColonColon);
                            }
                            assert(path@.len() == wpath.len());
                            if toks[q].kind == TokenKind::LParen {
                                assert(fields_listed(toks, q + 1, we - 1, wfields));
                            }
                        }
                    }
                    let fields = if self.match_token(TokenKind::LParen) {
                        self.parse_pattern_fields()?
                    } else {
                        Vec::new()
                    };
                    let end = self.previous_span();
                    proof {
                        if self.log().len() == n0 {
                            assert(qualified_path(toks, i, path@));
                        }
                    }
                    Ok(Pattern::Variant { path, fields, span: start.merge(end) })
                } else if self.check(TokenKind::Dot) {
                    // a variant written with a dot: Type.Variant(fields)
                    self.advance();
                    proof {
                        if good && toks[i + 3].kind == TokenKind::LParen {
                            assert(fields_listed(toks, i + 4, we - 1, wfields));
                        }
                    }
                    let segment = self.expect_identifier("variant name");
                    let fields = if self.match_token(TokenKind::LParen) {
                        self.parse_pattern_fields()?
                    } else {
                        Vec::new()
                    };
                    let end = self.previous_span();
                    Ok(Pattern::Variant { path: vec![name, segment], fields, span: start.merge(end) })
                } else if self.check(TokenKind::LParen) && starts_upper(name.as_str()) {
                    // a variant without its type: Variant(fields)
                    proof {
                        if good {
                            assert(decided_head(toks[i]));
                            assert(fields_listed(toks, i + 2, we - 1, wfields));
                        }
                    }
                    self.advance();
                    let fields = self.parse_pattern_fields()?;
                    let end = self.previous_span();
                    Ok(Pattern::Variant { path: vec![name], fields, span: start.merge(end) })
                } else {
                    Ok(Pattern::Binding { name, span: start })
                }
            },
            TokenKind::Ok_ | TokenKind::Err_ | TokenKind::Some_ => {
                let start = self.current_span();
                let name = self.current().lexeme.clone();
                self.advance();
                proof {
                    if good {
                        assert(fields_listed(toks, i + 2, we - 1, wfields));
                    }
                }
                self.expect(TokenKind::LParen);
                let fields = self.parse_pattern_fields()?;
                let end = self.previous_span();
                Ok(
                    Pattern::Variant {
                        path: vec![String::from_str("Result"), name],
                        fields,
                        span: start.merge(end),
                    },
                )
            },
            _ => {
                let mut m = String::from_str("expected pattern, found ");
                m.append(kind.name());
                Err(self.error(m))
            },
        }
    }

    /// Parse the fields of a variant pattern after its `(`, and the `)`.
    fn parse_pattern_fields(&mut self) -> (r: Result<Vec<PatternField>, Diagnostic>)
        requires
            old(self).wf(),
        ensures
            final(self).moved_on(old(self)),
            fails_with_error(r),
            r is Ok && final(self).log().len() == old(self).log().len() ==> {
                &&& old(self).at() < final(self).at()
                &&& old(self).toks()[final(self).at() - 1].kind == TokenKind::RParen
                &&& fields_listed(old(self).toks(), old(self).at() as int, final(self).at() - 1, r->Ok_0@)
            },
            short_fields(old(self).toks(), old(self).at() as int) ==> r is Ok && final(self).log() == old(
                self,
            ).log(),
            heads_decided(old(self).toks()) && (exists|c: int, fs: Seq<PatternField>|
                fields_listed(old(self).toks(), old(self).at() as int, c, fs) && old(self).toks()[c].kind
                    == TokenKind::RParen) ==> r is Ok && final(self).log() == old(self).log(),
        decreases old(self).toks().len() - old(self).at(), 21int,
    {
        let ghost toks = self.toks();
        let ghost j = self.at() as int;
        let ghost n0 = self.log().len();
        let ghost short = short_fields(toks, j);
        let ghost good = heads_decided(toks) && exists|c: int, fs: Seq<PatternField>|
            fields_listed(toks, j, c, fs) && toks[c].kind == TokenKind::RParen;
        let ghost (wc, wfs) = choose|c: int, fs: Seq<PatternField>|
            fields_listed(toks, j, c, fs) && toks[c].kind == TokenKind::RParen;
        let ghost mut rest: Seq<PatternField> = wfs;
        proof {
            if good {
                lemma_fields_head(toks, j, wc, rest);
            }
        }
        let mut fields: Vec<PatternField> = Vec::new();
        while !self.check(TokenKind::RParen) && !self.at_end()
            invariant_except_break
                self.log().len() == n0 ==> fields_commaed(toks, j, self.at() as int, fields@),
                short ==> self.at() == j && self.log() == old(self).log(),
                good ==> {
                    &&& self.log() == old(self).log()
                    &&& fields_listed(toks, self.at() as int, wc, rest)
                    &&& rest.len() == 0 ==> self.at() == wc
                    &&& rest.len() > 0 ==> toks[self.at() as int].kind != TokenKind::RParen && toks[self.at() as int].kind != TokenKind::Eof
                },
            invariant
                good ==> heads_decided(toks) && toks[wc].kind == TokenKind::RParen,
                good == (heads_decided(toks) && exists|c: int, fs: Seq<PatternField>|
                    fields_listed(toks, j, c, fs) && toks[c].kind == TokenKind::RParen),
                self.moved_on(old(self)),
                j <= self.at(),
                toks == old(self).toks(),
                n0 == old(self).log().len(),
                j == old(self).at(),
                short == short_fields(toks, j),
            ensures
                self.moved_on(old(self)),
                j <= self.at(),
                self.log().len() == n0 ==> fields_listed(toks, j, self.at() as int, fields@),
                short ==> self.log() == old(self).log() && toks[self.at() as int].kind == TokenKind::RParen,
                good ==> self.log() == old(self).log() && self.at() == wc,
            decreases self.toks().len() - self.at(),
        {
            let ghost m = self.at() as int;
            let ghost before = fields@;
            proof {
                if short {
                    assert(lone_pattern(self.toks(), self.at() as int));
                }
            }
            let ghost wm: int = 0;
            proof {
                if good {
                    lemma_fields_listed_first(toks, m, wc, rest);
                    wm = choose|k: int|
                        #![trigger field_from(toks, m, k, rest[0])]
                        field_from(toks, m, k, rest[0]) && ((toks[k].kind == TokenKind::Comma && fields_listed(
                            toks,
                            k + 1,
                            wc,
                            rest.drop_first(),
                        )) || (rest.len() == 1 && k == wc));
                    assert(pattern_from(toks, m, wm, rest[0].pattern));
                }
            }
            let f_start = self.current_span();
            let parsed = self.parse_pattern();
            let pattern = match parsed {
                Ok(p) => p,
                Err(d) => return Err(d),
            };
            let f_end = self.previous_span();
            let ghost e1 = self.at() as int;
            proof {
                if good {
                    law_pattern_end_unique(toks, m, e1, pattern, wm, rest[0].pattern);
                }
            }
            let field = PatternField { name: None, pattern, span: f_start.merge(f_end) };
            proof {
                if self.log().len() == n0 {
                    assert(field_from(toks, m, e1, field));
                }
            }
            let ghost fv = field;
            fields.push(field);
            if !self.match_token(TokenKind::Comma) {
                proof {
                    if self.log().len() == n0 {
                        lemma_fields_listed_last(toks, j, m, e1, before, fv);
                    }
                }
                break;
            }
            proof {
                if self.log().len() == n0 {
                    lemma_fields_commaed_push(toks, j, m, self.at() as int, before, fv);
                }
                if good {
                    rest = rest.drop_first();
                    lemma_fields_head(toks, self.at() as int, wc, rest);
                }
            }
        }
        self.expect(TokenKind::RParen);
        Ok(fields)
    }
}

} // verus!
