//! The lexical grammar of GalaxC, stated over the bytes of the source text.

use vstd::prelude::*;
use vstd::string::*;
use vstd::utf8::*;
use super::token::{Token, TokenKind, word_kind, kind_name};

verus! {

/// Byte classes that the scanner reads runs of.
#[derive(PartialEq, Eq, Structural, Clone, Copy)]
pub enum ByteClass {
    /// Letters, digits and `_`.
    Word,
    /// Decimal digits and `_`.
    Decimal,
    /// Hexadecimal digits and `_`.
    Hex,
    /// `0`, `1` and `_`.
    Binary,
    /// `0` through `7` and `_`.
    Octal,
}

pub open spec fn is_digit(c: u8) -> bool {
    48 <= c <= 57
}

pub open spec fn is_alpha(c: u8) -> bool {
    (65 <= c <= 90) || (97 <= c <= 122)
}

/// Bytes that can begin an identifier or keyword: letters and `_`.
pub open spec fn is_word_start(c: u8) -> bool {
    is_alpha(c) || c == 95
}

pub open spec fn in_class(class: ByteClass, c: u8) -> bool {
    match class {
        ByteClass::Word => is_alpha(c) || is_digit(c) || c == 95,
        ByteClass::Decimal => is_digit(c) || c == 95,
        ByteClass::Hex => is_digit(c) || (65 <= c <= 70) || (97 <= c <= 102) || c == 95,
        ByteClass::Binary => c == 48 || c == 49 || c == 95,
        ByteClass::Octal => (48 <= c <= 55) || c == 95,
    }
}

/// The first position at or after `i` whose byte is not in `class`
/// (or the end of the text).
pub open spec fn run_end(b: Seq<u8>, i: int, class: ByteClass) -> int
    decreases b.len() - i,
{
    if 0 <= i < b.len() && in_class(class, b[i]) {
        run_end(b, i + 1, class)
    } else {
        i
    }
}

pub proof fn lemma_run_end_bounds(b: Seq<u8>, i: int, class: ByteClass)
    requires
        0 <= i <= b.len(),
    ensures
        i <= run_end(b, i, class) <= b.len(),
        forall|k: int| i <= k < run_end(b, i, class) ==> in_class(class, #[trigger] b[k]),
    decreases b.len() - i,
{
    if i < b.len() && in_class(class, b[i]) {
        lemma_run_end_bounds(b, i + 1, class);
    }
}

/// Whether the byte after position `i` exists and equals `c`.
pub open spec fn next_is(b: Seq<u8>, i: int, c: u8) -> bool {
    i + 1 < b.len() && b[i + 1] == c
}

/// A line comment (`--`, which also covers `---` and `--!`) starts at `i`.
pub open spec fn comment_at(b: Seq<u8>, i: int) -> bool {
    0 <= i && i + 1 < b.len() && b[i] == 45 && b[i + 1] == 45
}

/// The first line break at or after `i`, or the end of the text.
pub open spec fn line_end(b: Seq<u8>, i: int) -> int
    decreases b.len() - i,
{
    if 0 <= i < b.len() && b[i] != 10 {
        line_end(b, i + 1)
    } else {
        i
    }
}

pub proof fn lemma_line_end_bounds(b: Seq<u8>, i: int)
    requires
        0 <= i <= b.len(),
    ensures
        i <= line_end(b, i) <= b.len(),
        line_end(b, i) == b.len() || b[line_end(b, i)] == 10,
    decreases b.len() - i,
{
    if i < b.len() && b[i] != 10 {
        lemma_line_end_bounds(b, i + 1);
    }
}

/// The bytes from `a` up to `c` are blanks: spaces, tabs, line comments and,
/// when `nl` holds, line breaks.
pub open spec fn blank_to(b: Seq<u8>, a: int, c: int, nl: bool) -> bool
    decreases c - a,
{
    if a == c {
        true
    } else if a > c || a < 0 || a >= b.len() {
        false
    } else if b[a] == 32 || b[a] == 9 {
        blank_to(b, a + 1, c, nl)
    } else if nl && (b[a] == 10 || b[a] == 13) {
        blank_to(b, a + 1, c, nl)
    } else if comment_at(b, a) {
        a < line_end(b, a) && line_end(b, a) <= c && blank_to(b, line_end(b, a), c, nl)
    } else {
        false
    }
}

pub proof fn lemma_blank_to_le(b: Seq<u8>, a: int, c: int, nl: bool)
    requires
        blank_to(b, a, c, nl),
    ensures
        a <= c,
    decreases c - a,
{
}

pub proof fn lemma_blank_to_trans(b: Seq<u8>, a: int, c: int, d: int, nl: bool)
    requires
        blank_to(b, a, c, nl),
        blank_to(b, c, d, nl),
    ensures
        blank_to(b, a, d, nl),
    decreases c - a,
{
    lemma_blank_to_le(b, c, d, nl);
    if a != c {
        if b[a] == 32 || b[a] == 9 {
            lemma_blank_to_trans(b, a + 1, c, d, nl);
        } else if nl && (b[a] == 10 || b[a] == 13) {
            lemma_blank_to_trans(b, a + 1, c, d, nl);
        } else {
            lemma_blank_to_trans(b, line_end(b, a), c, d, nl);
        }
    }
}

/// Blanks without line breaks are also blanks with line breaks allowed.
pub proof fn lemma_blank_to_weaken(b: Seq<u8>, a: int, c: int)
    requires
        blank_to(b, a, c, false),
    ensures
        blank_to(b, a, c, true),
    decreases c - a,
{
    if a != c {
        if b[a] == 32 || b[a] == 9 {
            lemma_blank_to_weaken(b, a + 1, c);
        } else {
            lemma_blank_to_weaken(b, line_end(b, a), c);
        }
    }
}

/// The operator or punctuation token at `i`, with its length in bytes;
/// two-byte operators are preferred over their one-byte prefixes.
pub open spec fn punct_at(b: Seq<u8>, i: int) -> Option<(TokenKind, int)> {
    let c = b[i];
    if c == 40 { Some((TokenKind::LParen, 1)) }
    else if c == 41 { Some((TokenKind::RParen, 1)) }
    else if c == 91 { Some((TokenKind::LBracket, 1)) }
    else if c == 93 { Some((TokenKind::RBracket, 1)) }
    else if c == 123 { Some((TokenKind::LBrace, 1)) }
    else if c == 125 { Some((TokenKind::RBrace, 1)) }
    else if c == 44 { Some((TokenKind::Comma, 1)) }
    else if c == 59 { Some((TokenKind::Semicolon, 1)) }
    else if c == 126 { Some((TokenKind::Tilde, 1)) }
    else if c == 64 { Some((TokenKind::At, 1)) }
    else if c == 63 { Some((TokenKind::Question, 1)) }
    else if c == 43 {
        if next_is(b, i, 43) { Some((TokenKind::PlusPlus, 2)) }
        else if next_is(b, i, 61) { Some((TokenKind::PlusAssign, 2)) }
        else { Some((TokenKind::Plus, 1)) }
    } else if c == 45 {
        if next_is(b, i, 45) { None }
        else if next_is(b, i, 62) { Some((TokenKind::Arrow, 2)) }
        else if next_is(b, i, 61) { Some((TokenKind::MinusAssign, 2)) }
        else { Some((TokenKind::Minus, 1)) }
    } else if c == 42 {
        if next_is(b, i, 61) { Some((TokenKind::StarAssign, 2)) } else { Some((TokenKind::Star, 1)) }
    } else if c == 47 {
        if next_is(b, i, 61) { Some((TokenKind::SlashAssign, 2)) } else { Some((TokenKind::Slash, 1)) }
    } else if c == 37 {
        if next_is(b, i, 61) { Some((TokenKind::PercentAssign, 2)) } else { Some((TokenKind::Percent, 1)) }
    } else if c == 61 {
        if next_is(b, i, 61) { Some((TokenKind::Eq, 2)) }
        else if next_is(b, i, 62) { Some((TokenKind::FatArrow, 2)) }
        else { Some((TokenKind::Assign, 1)) }
    } else if c == 33 {
        if next_is(b, i, 61) { Some((TokenKind::NotEq, 2)) }
        else if next_is(b, i, 33) { Some((TokenKind::BangBang, 2)) }
        else { None }
    } else if c == 60 {
        if next_is(b, i, 61) { Some((TokenKind::LtEq, 2)) }
        else if next_is(b, i, 60) { Some((TokenKind::ShiftLeft, 2)) }
        else { Some((TokenKind::Lt, 1)) }
    } else if c == 62 {
        if next_is(b, i, 61) { Some((TokenKind::GtEq, 2)) }
        else if next_is(b, i, 62) { Some((TokenKind::ShiftRight, 2)) }
        else { Some((TokenKind::Gt, 1)) }
    } else if c == 38 { Some((TokenKind::Ampersand, 1)) }
    else if c == 124 { Some((TokenKind::Pipe, 1)) }
    else if c == 94 { Some((TokenKind::Caret, 1)) }
    else if c == 58 {
        if next_is(b, i, 58) { Some((TokenKind::ColonColon, 2)) } else { Some((TokenKind::Colon, 1)) }
    } else if c == 46 {
        if next_is(b, i, 46) { Some((TokenKind::DotDot, 2)) } else { Some((TokenKind::Dot, 1)) }
    } else {
        None
    }
}

/// The bytes of the text `s`, each character taken as one byte.
pub open spec fn ascii_of(s: Seq<char>) -> Seq<u8> {
    Seq::new(s.len(), |i: int| s[i] as u8)
}

/// The operator and punctuation kinds, each written with marks that are
/// neither letters nor digits.
pub open spec fn is_punctuation(k: TokenKind) -> bool {
    matches!(k, TokenKind::Plus | TokenKind::Minus | TokenKind::Star | TokenKind::Slash | TokenKind::Percent | TokenKind::PlusPlus | TokenKind::Eq | TokenKind::NotEq | TokenKind::Lt | TokenKind::Gt | TokenKind::LtEq | TokenKind::GtEq | TokenKind::Ampersand | TokenKind::Pipe | TokenKind::Caret | TokenKind::Tilde | TokenKind::ShiftLeft | TokenKind::ShiftRight | TokenKind::Assign | TokenKind::PlusAssign | TokenKind::MinusAssign | TokenKind::StarAssign | TokenKind::SlashAssign | TokenKind::PercentAssign | TokenKind::LParen | TokenKind::RParen | TokenKind::LBracket | TokenKind::RBracket | TokenKind::LBrace | TokenKind::RBrace | TokenKind::Arrow | TokenKind::FatArrow | TokenKind::Colon | TokenKind::ColonColon | TokenKind::Comma | TokenKind::Dot | TokenKind::DotDot | TokenKind::Question | TokenKind::BangBang | TokenKind::At | TokenKind::Semicolon)
}

/// How a kind is written in source: its name in messages without the
/// quote marks around it.
pub open spec fn written_form(k: TokenKind) -> Seq<char> {
    kind_name(k).subrange(1, kind_name(k).len() - 1)
}

/// Each operator and punctuation mark is read as one token of its own
/// kind: its written form, followed by a space, lexes from its first byte
/// to its last as exactly that token. (`>>` is written alike for shifts and
/// pipelines, and always reads as the shift.)
pub proof fn law_punctuation_lexes_whole(k: TokenKind)
    requires
        is_punctuation(k),
    ensures
        punct_at(ascii_of(written_form(k)).push(32u8), 0) == Some((k, written_form(k).len() as int)),
{
    match k {
        TokenKind::Plus => reveal_strlit("'+'"),
        TokenKind::Minus => reveal_strlit("'-'"),
        TokenKind::Star => reveal_strlit("'*'"),
        TokenKind::Slash => reveal_strlit("'/'"),
        TokenKind::Percent => reveal_strlit("'%'"),
        TokenKind::PlusPlus => reveal_strlit("'++'"),
        TokenKind::Eq => reveal_strlit("'=='"),
        TokenKind::NotEq => reveal_strlit("'!='"),
        TokenKind::Lt => reveal_strlit("'<'"),
        TokenKind::Gt => reveal_strlit("'>'"),
        TokenKind::LtEq => reveal_strlit("'<='"),
        TokenKind::GtEq => reveal_strlit("'>='"),
        TokenKind::Ampersand => reveal_strlit("'&'"),
        TokenKind::Pipe => reveal_strlit("'|'"),
        TokenKind::Caret => reveal_strlit("'^'"),
        TokenKind::Tilde => reveal_strlit("'~'"),
        TokenKind::ShiftLeft => reveal_strlit("'<<'"),
        TokenKind::ShiftRight => reveal_strlit("'>>'"),
        TokenKind::Assign => reveal_strlit("'='"),
        TokenKind::PlusAssign => reveal_strlit("'+='"),
        TokenKind::MinusAssign => reveal_strlit("'-='"),
        TokenKind::StarAssign => reveal_strlit("'*='"),
        TokenKind::SlashAssign => reveal_strlit("'/='"),
        TokenKind::PercentAssign => reveal_strlit("'%='"),
        TokenKind::LParen => reveal_strlit("'('"),
        TokenKind::RParen => reveal_strlit("')'"),
        TokenKind::LBracket => reveal_strlit("'['"),
        TokenKind::RBracket => reveal_strlit("']'"),
        TokenKind::LBrace => reveal_strlit("'{'"),
        TokenKind::RBrace => reveal_strlit("'}'"),
        TokenKind::Arrow => reveal_strlit("'->'"),
        TokenKind::FatArrow => reveal_strlit("'=>'"),
        TokenKind::Colon => reveal_strlit("':'"),
        TokenKind::ColonColon => reveal_strlit("'::'"),
        TokenKind::Comma => reveal_strlit("','"),
        TokenKind::Dot => reveal_strlit("'.'"),
        TokenKind::DotDot => reveal_strlit("'..'"),
        TokenKind::Question => reveal_strlit("'?'"),
        TokenKind::BangBang => reveal_strlit("'!!'"),
        TokenKind::At => reveal_strlit("'@'"),
        TokenKind::Semicolon => reveal_strlit("';'"),
        _ => {},
    }
}

/// End position of the fractional part of a decimal number whose integer
/// digits end at `d`, and whether there was one.
pub open spec fn fraction_end(b: Seq<u8>, d: int) -> (int, bool) {
    if 0 <= d && d + 1 < b.len() && b[d] == 46 && is_digit(b[d + 1]) {
        (run_end(b, d + 1, ByteClass::Decimal), true)
    } else {
        (d, false)
    }
}

/// End position of the exponent of a decimal number whose mantissa ends at
/// `f`, and whether there was one.
pub open spec fn exponent_end(b: Seq<u8>, f: int) -> (int, bool) {
    if 0 <= f < b.len() && (b[f] == 101 || b[f] == 69) {
        let g = if f + 1 < b.len() && (b[f + 1] == 43 || b[f + 1] == 45) { f + 2 } else { f + 1 };
        (run_end(b, g, ByteClass::Decimal), true)
    } else {
        (f, false)
    }
}

/// The end of the number literal starting at `s`, and whether it is a
/// floating-point literal. Prefixes `0x`, `0b` and `0o` introduce integer
/// literals in base 16, 2 and 8.
pub open spec fn number_scan(b: Seq<u8>, s: int) -> (int, bool) {
    if b[s] == 48 && next_is(b, s, 120) || b[s] == 48 && next_is(b, s, 88) {
        (run_end(b, s + 2, ByteClass::Hex), false)
    } else if b[s] == 48 && next_is(b, s, 98) || b[s] == 48 && next_is(b, s, 66) {
        (run_end(b, s + 2, ByteClass::Binary), false)
    } else if b[s] == 48 && next_is(b, s, 111) || b[s] == 48 && next_is(b, s, 79) {
        (run_end(b, s + 2, ByteClass::Octal), false)
    } else {
        let d = run_end(b, s + 1, ByteClass::Decimal);
        let (f, frac) = fraction_end(b, d);
        let (e, exp) = exponent_end(b, f);
        (e, frac || exp)
    }
}

/// The letters that may follow a backslash in a string literal.
pub open spec fn string_escape(c: u8) -> bool {
    c == 110 || c == 116 || c == 114 || c == 92 || c == 34 || c == 48
}

/// The letters that may follow a backslash in a character literal.
pub open spec fn char_escape(c: u8) -> bool {
    c == 110 || c == 116 || c == 114 || c == 92 || c == 39 || c == 48
}

/// Where a string literal whose body starts at `i` ends, just past its
/// closing quote; None when a line break, an unknown or cut-off escape, or
/// the end of the text comes first.
pub open spec fn string_end(b: Seq<u8>, i: int) -> Option<int>
    decreases b.len() - i,
{
    if i < 0 || i >= b.len() {
        None
    } else if b[i] == 34 {
        Some(i + 1)
    } else if b[i] == 92 {
        if i + 1 < b.len() && string_escape(b[i + 1]) {
            string_end(b, i + 2)
        } else {
            None
        }
    } else if b[i] == 10 {
        None
    } else {
        string_end(b, i + 1)
    }
}

/// A string body that ends does so just past a closing quote.
pub proof fn lemma_string_end_quote(b: Seq<u8>, i: int)
    requires
        string_end(b, i) is Some,
    ensures
        i < string_end(b, i).unwrap() <= b.len(),
        b[string_end(b, i).unwrap() - 1] == 34,
    decreases b.len() - i,
{
    if 0 <= i < b.len() && b[i] != 34 {
        if b[i] == 92 {
            lemma_string_end_quote(b, i + 2);
        } else {
            lemma_string_end_quote(b, i + 1);
        }
    }
}

/// Where a character literal whose opening quote is at `s` ends: one byte,
/// or a backslash and an escape letter, then the closing quote.
pub open spec fn char_end(b: Seq<u8>, s: int) -> Option<int> {
    if s + 1 >= b.len() {
        None
    } else if b[s + 1] == 92 {
        if s + 3 < b.len() && char_escape(b[s + 2]) && b[s + 3] == 39 {
            Some(s + 4)
        } else {
            None
        }
    } else if s + 2 < b.len() && b[s + 2] == 39 {
        Some(s + 3)
    } else {
        None
    }
}

/// A line break token covers `\n`, `\r\n`, or a lone `\r`.
pub open spec fn newline_at(b: Seq<u8>, s: int, e: int) -> bool {
    ||| (b[s] == 10 && e == s + 1)
    ||| (b[s] == 13 && e == s + 2 && b[s + 1] == 10)
    ||| (b[s] == 13 && e == s + 1 && !next_is(b, s, 10))
}

/// How the first byte of a token determines its kind and extent.
pub open spec fn lexeme_fits(b: Seq<u8>, s: int, e: int, kind: TokenKind, text: Seq<char>) -> bool {
    if is_word_start(b[s]) {
        e == run_end(b, s + 1, ByteClass::Word) && kind == word_kind(text)
    } else if is_digit(b[s]) {
        &&& e == number_scan(b, s).0
        &&& kind == (if number_scan(b, s).1 { TokenKind::FloatLiteral } else { TokenKind::IntLiteral })
    } else if b[s] == 34 {
        kind == TokenKind::StringLiteral && string_end(b, s + 1) == Some(e)
    } else if b[s] == 39 {
        kind == TokenKind::CharLiteral && char_end(b, s) == Some(e)
    } else {
        punct_at(b, s) == Some((kind, e - s))
    }
}

/// A token as the scanner produces it from the bytes `b` of the source:
/// its span lies within the text, its lexeme is the text it spans, and its
/// kind is the one the lexical grammar gives that text.
#[verifier::opaque]
pub open spec fn token_fits(b: Seq<u8>, t: Token) -> bool {
    let s = t.span.start as int;
    let e = t.span.end as int;
    &&& 0 <= s <= e <= b.len()
    &&& if t.kind == TokenKind::Eof {
        s == e && e == b.len() && t.lexeme@.len() == 0
    } else if t.kind == TokenKind::Newline {
        s < e && t.lexeme@ == "\n"@ && newline_at(b, s, e)
    } else {
        &&& s < e
        &&& encode_utf8(t.lexeme@) == b.subrange(s, e)
        &&& lexeme_fits(b, s, e, t.kind, t.lexeme@)
    }
}

} // verus!
