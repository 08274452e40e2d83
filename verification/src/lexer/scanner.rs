//! Scanner: the byte-level engine that produces tokens from source text.
//! Handles whitespace, comments, string and character literals, numbers,
//! identifiers, keywords, and all operators and punctuation, and reports
//! precise error locations for malformed input.

use vstd::prelude::*;
use vstd::string::*;
use vstd::utf8::*;
use crate::diagnostics::{Diagnostic, DiagnosticKind, Span};
use crate::text::{slice_text, lemma_ascii_boundaries, char_to_text};
use super::token::{Token, TokenKind, ends_statement, word_kind};
use super::unique::{no_token_after, stuck_at, blank_start, lemma_stuck_after, lemma_stuck_skip, lemma_blank_stop};
use super::rules::{
    ByteClass, in_class, is_word_start, is_digit, run_end, lemma_run_end_bounds, comment_at, line_end,
    blank_to, lemma_blank_to_trans, lemma_blank_to_weaken, punct_at, fraction_end, token_fits,
    string_end, char_end,
};

verus! {

broadcast use vstd::string::group_string_axioms;

/// Position `s` of `b` holds a stray byte: an ASCII character that is no
/// blank, no line break, no quote, no `-`, and starts no name, number,
/// comment or operator.
pub open spec fn stray_at(b: Seq<u8>, s: int) -> bool {
    &&& 0 <= s < b.len()
    &&& b[s] < 128
    &&& b[s] != 32 && b[s] != 9 && b[s] != 10 && b[s] != 13 && b[s] != 34 && b[s] != 39 && b[s] != 45
    &&& !is_word_start(b[s]) && !is_digit(b[s])
    &&& punct_at(b, s) is None
}

/// Every byte of `b` is a space or a stray byte.
pub open spec fn spaces_and_strays(b: Seq<u8>) -> bool {
    forall|i: int| 0 <= i < b.len() ==> b[i] == 32 || #[trigger] stray_at(b, i)
}

/// The first stray byte of `b` at or after `p`, or the end of `b`.
pub open spec fn next_stray(b: Seq<u8>, p: int) -> int
    decreases b.len() - p,
{
    if p < 0 || p >= b.len() {
        b.len() as int
    } else if stray_at(b, p) {
        p
    } else {
        next_stray(b, p + 1)
    }
}

/// The message for the unexpected character `c`.
pub open spec fn unexpected_message(c: u8) -> Seq<char> {
    "unexpected character '"@ + seq![c as char] + "'"@
}

/// In a text of spaces and stray bytes, only spaces lie between `p` and
/// the next stray byte, which is a stray byte where it is not the end.
pub proof fn lemma_next_stray(b: Seq<u8>, p: int)
    requires
        spaces_and_strays(b),
        0 <= p <= b.len(),
    ensures
        p <= next_stray(b, p) <= b.len(),
        forall|i: int| p <= i < next_stray(b, p) ==> b[i] == 32,
        next_stray(b, p) < b.len() ==> stray_at(b, next_stray(b, p)),
        blank_to(b, p, next_stray(b, p), false),
    decreases b.len() - p,
{
    if p < b.len() && !stray_at(b, p) {
        assert(b[p] == 32);
        lemma_next_stray(b, p + 1);
    }
}

/// What one call of `next_token` does, from the text `b`, a start position
/// `p0` and whether the previous token could end a statement (`prev0`), to
/// the new position `p1`, the new flag `prev1` and the result `r`:
/// a token is preceded only by blanks (line breaks count as blanks unless
/// the previous token could end a statement), fits the lexical grammar and
/// ends where the scanner stops; a line-break token is produced only after a
/// token that can end a statement; an error is located within the skipped
/// text and the scanner moves past it.
pub open spec fn scan_step(
    b: Seq<u8>,
    p0: int,
    prev0: bool,
    p1: int,
    prev1: bool,
    file: Seq<char>,
    r: Result<Token, Diagnostic>,
) -> bool {
    &&& p0 <= p1 <= b.len()
    &&& match r {
        Ok(t) => {
            &&& token_fits(b, t)
            &&& t.span.end == p1
            &&& (t.kind != TokenKind::Eof ==> t.span.start < t.span.end)
            &&& blank_to(b, p0, t.span.start as int, !prev0)
            &&& (t.kind == TokenKind::Newline ==> prev0 && !prev1)
            &&& (t.kind == TokenKind::Eof ==> prev1 == prev0)
            &&& (t.kind != TokenKind::Newline && t.kind != TokenKind::Eof ==> prev1 == ends_statement(
                t.kind,
            ))
        },
        Err(d) => {
            &&& p0 < p1
            &&& d.kind == DiagnosticKind::Error
            &&& d.filename.is_some() && d.filename.unwrap()@ == file
            &&& d.span.is_some()
            &&& p0 <= d.span.unwrap().start <= d.span.unwrap().end <= p1
            &&& prev1 == prev0
            &&& no_token_after(b, p0, prev0)
        },
    }
}

/// At the end of the text the scanner stays put: the step from there gives
/// the end-of-file token at the end, and leaves the position and the
/// statement state as they were.
pub proof fn law_end_is_stable(
    b: Seq<u8>,
    prev0: bool,
    p1: int,
    prev1: bool,
    file: Seq<char>,
    r: Result<Token, Diagnostic>,
)
    requires
        scan_step(b, b.len() as int, prev0, p1, prev1, file, r),
    ensures
        r matches Ok(t) && t.kind == TokenKind::Eof && t.span.end == b.len(),
        p1 == b.len(),
        prev1 == prev0,
{
    if let Ok(t) = r {
        assert(blank_to(b, b.len() as int, t.span.start as int, !prev0));
        assert(t.span.start as int == b.len());
    }
}

pub struct Scanner<'src> {
    source: &'src str,
    bytes: &'src [u8],
    filename: String,
    pos: usize,
    /// Whether the previous meaningful token could end a statement, so that
    /// a line break acts as a statement separator.
    prev_can_end_statement: bool,
}

/// Whether a line break after a token of this kind ends a statement.
pub fn can_end_statement(kind: TokenKind) -> (b: bool)
    ensures
        b == ends_statement(kind),
{
    match kind {
        TokenKind::Identifier | TokenKind::IntLiteral | TokenKind::FloatLiteral
        | TokenKind::StringLiteral | TokenKind::CharLiteral | TokenKind::True
        | TokenKind::False | TokenKind::None_ | TokenKind::End | TokenKind::Break
        | TokenKind::Continue | TokenKind::RParen | TokenKind::RBracket | TokenKind::RBrace
        | TokenKind::Question | TokenKind::SelfLower | TokenKind::SelfUpper
        | TokenKind::FatArrow => true,
        _ => false,
    }
}

fn byte_in_class(class: ByteClass, c: u8) -> (r: bool)
    ensures
        r == in_class(class, c),
{
    match class {
        ByteClass::Word => (65 <= c && c <= 90) || (97 <= c && c <= 122) || (48 <= c && c <= 57)
            || c == 95,
        ByteClass::Decimal => (48 <= c && c <= 57) || c == 95,
        ByteClass::Hex => (48 <= c && c <= 57) || (65 <= c && c <= 70) || (97 <= c && c <= 102)
            || c == 95,
        ByteClass::Binary => c == 48 || c == 49 || c == 95,
        ByteClass::Octal => (48 <= c && c <= 55) || c == 95,
    }
}

proof fn lemma_class_ascii(class: ByteClass, c: u8)
    requires
        in_class(class, c),
    ensures
        c < 0x80,
{
}

impl<'src> Scanner<'src> {
    /// The bytes of the source text.
    pub closed spec fn text(&self) -> Seq<u8> {
        self.bytes@
    }

    /// The byte offset the scanner has reached.
    pub closed spec fn position(&self) -> int {
        self.pos as int
    }

    /// Whether the last token produced could end a statement.
    pub closed spec fn after_statement_end(&self) -> bool {
        self.prev_can_end_statement
    }

    /// The name of the file being scanned.
    pub closed spec fn file(&self) -> Seq<char> {
        self.filename@
    }

    /// The scanner's internal consistency.
    pub closed spec fn wf(&self) -> bool {
        &&& self.bytes@ == self.source.spec_bytes()
        &&& self.pos <= self.bytes@.len()
    }

    /// A consistent scanner has read no further than the end of its text,
    /// which is valid UTF-8.
    pub proof fn lemma_wf(&self)
        requires
            self.wf(),
        ensures
            0 <= self.position() <= self.text().len(),
            valid_utf8(self.text()),
    {
        broadcast use vstd::utf8::encode_utf8_valid_utf8;
        assert(valid_utf8(encode_utf8(self.source@)));
    }

    /// A scanner at the start of `source`.
    pub fn new(source: &'src str, filename: &str) -> (s: Scanner<'src>)
        ensures
            s.wf(),
            s.text() == source.spec_bytes(),
            s.position() == 0,
            !s.after_statement_end(),
            s.file() == filename@,
    {
        Scanner {
            source,
            bytes: source.as_bytes(),
            filename: String::from_str(filename),
            pos: 0,
            prev_can_end_statement: false,
        }
    }

    /// Produce the next token from the source. Returns Err for malformed input;
    /// the scanner still advances past the bad text.
    pub fn next_token(&mut self) -> (r: Result<Token, Diagnostic>)
        requires
            old(self).wf(),
        ensures
            final(self).wf(),
            final(self).text() == old(self).text(),
            final(self).file() == old(self).file(),
            scan_step(
                old(self).text(),
                old(self).position(),
                old(self).after_statement_end(),
                final(self).position(),
                final(self).after_statement_end(),
                old(self).file(),
                r,
            ),
            spaces_and_strays(old(self).text()) ==> {
                let s = next_stray(old(self).text(), old(self).position() as int);
                if s < old(self).text().len() {
                    &&& r matches Err(d)
                    &&& d.message@ == unexpected_message(old(self).text()[s])
                    &&& d.span == Some(Span { start: s as usize, end: (s + 1) as usize })
                    &&& final(self).position() == s + 1
                } else {
                    &&& r matches Ok(t)
                    &&& t.kind == TokenKind::Eof
                    &&& final(self).position() == old(self).text().len()
                }
            },
        decreases old(self).text().len() - old(self).position(),
    {
        proof {
            reveal(token_fits);
        }
        let ghost b = self.bytes@;
        let ghost p0 = self.pos as int;
        let ghost prev0 = self.prev_can_end_statement;
        proof {
            self.lemma_wf();
        }
        self.skip_whitespace_and_comments();
        proof {
            if spaces_and_strays(b) {
                lemma_next_stray(b, p0);
                let s = next_stray(b, p0);
                let st = self.pos as int;
                if st < s {
                    assert(b[st] == 32);
                } else if s < st {
                    lemma_blank_stop(b, p0, s, st, false);
                }
                assert(st == s);
            }
        }
        if self.at_end() {
            proof {
                if prev0 == false {
                    lemma_blank_to_weaken(b, p0, self.pos as int);
                }
            }
            return Ok(Token::new(TokenKind::Eof, Span::point(self.pos), String::new()));
        }
        let start = self.pos;
        proof {
            if !prev0 {
                lemma_blank_to_weaken(b, p0, start as int);
            }
        }
        let ch = self.advance();
        if ch == 10u8 || ch == 13u8 {
            if ch == 13u8 && self.peek() == Some(10u8) {
                self.advance();
                proof {
                    assert(blank_to(b, start as int + 2, start as int + 2, true));
                    assert(blank_to(b, start as int + 1, start as int + 2, true));
                    assert(blank_to(b, start as int, start as int + 2, true));
                }
            } else {
                proof {
                    assert(blank_to(b, start as int + 1, start as int + 1, true));
                    assert(blank_to(b, start as int, start as int + 1, true));
                }
            }
            if self.prev_can_end_statement {
                self.prev_can_end_statement = false;
                proof {
                    reveal_strlit("\n");
                }
                return Ok(Token::new(TokenKind::Newline, Span::new(start, self.pos), String::from_str("\n")));
            }
            // The line break does not end a statement here: skip it.
            proof {
                lemma_blank_to_trans(b, p0, start as int, self.pos as int, true);
            }
            let ghost p_mid = self.pos as int;
            let r = self.next_token();
            proof {
                match &r {
                    Ok(t) => {
                        lemma_blank_to_trans(b, p0, p_mid, t.span.start as int, true);
                    },
                    Err(_) => {
                        lemma_blank_to_trans(b, p0, start as int, p_mid, true);
                        lemma_stuck_skip(b, p0, p_mid);
                    },
                }
            }
            return r;
        }
        proof {
            if !prev0 {
                lemma_blank_to_weaken(b, p0, start as int);
            }
            assert(!blank_start(b, start as int, !prev0));
        }
        if ch == 34u8 {
            let r = self.scan_string(start);
            proof {
                if r is Err {
                    assert(stuck_at(b, start as int));
                    lemma_stuck_after(b, p0, prev0, start as int);
                }
            }
            return r;
        }
        if ch == 39u8 {
            let r = self.scan_char(start);
            proof {
                if r is Err {
                    assert(stuck_at(b, start as int));
                    lemma_stuck_after(b, p0, prev0, start as int);
                }
            }
            return r;
        }
        if 48u8 <= ch && ch <= 57u8 {
            return self.scan_number(start);
        }
        if (65u8 <= ch && ch <= 90u8) || (97u8 <= ch && ch <= 122u8) || ch == 95u8 {
            return self.scan_identifier(start);
        }
        match self.scan_punct(ch) {
            Some(kind) => {
                let lexeme = self.lexeme(start);
                self.prev_can_end_statement = can_end_statement(kind);
                Ok(Token::new(kind, Span::new(start, self.pos), lexeme))
            },
            None => {
                proof {
                    assert(stuck_at(b, start as int));
                    lemma_stuck_after(b, p0, prev0, start as int);
                }
                let message = String::from_str("unexpected character '");
                let message = message.concat(char_to_text(ch as char).as_str());
                let message = message.concat("'");
                let d = Diagnostic::error(message).with_span(Span::new(start, self.pos)).with_file(
                    self.filename.as_str(),
                );
                if ch == 33u8 {
                    Err(d.with_help(String::from_str("did you mean '!=' or '!!'?")))
                } else {
                    Err(d)
                }
            },
        }
    }

    /// The operator or punctuation token that starts with the byte `ch` just
    /// read, consuming its second byte when it has one.
    fn scan_punct(&mut self, ch: u8) -> (k: Option<TokenKind>)
        requires
            old(self).wf(),
            old(self).pos >= 1,
            old(self).bytes@[old(self).pos - 1] == ch,
            !comment_at(old(self).bytes@, old(self).pos - 1),
        ensures
            final(self).wf(),
            final(self).source == old(self).source,
            final(self).bytes == old(self).bytes,
            final(self).filename == old(self).filename,
            final(self).prev_can_end_statement == old(self).prev_can_end_statement,
            match k {
                Some(kind) => punct_at(old(self).bytes@, old(self).pos - 1) == Some(
                    (kind, final(self).pos - old(self).pos + 1),
                ),
                None => punct_at(old(self).bytes@, old(self).pos - 1).is_none() && final(self).pos
                    == old(self).pos,
            },
    {
        let ghost b = self.bytes@;
        let ghost i = self.pos - 1;
        if ch == 40u8 { Some(TokenKind::LParen) }
        else if ch == 41u8 { Some(TokenKind::RParen) }
        else if ch == 91u8 { Some(TokenKind::LBracket) }
        else if ch == 93u8 { Some(TokenKind::RBracket) }
        else if ch == 123u8 { Some(TokenKind::LBrace) }
        else if ch == 125u8 { Some(TokenKind::RBrace) }
        else if ch == 44u8 { Some(TokenKind::Comma) }
        else if ch == 59u8 { Some(TokenKind::Semicolon) }
        else if ch == 126u8 { Some(TokenKind::Tilde) }
        else if ch == 64u8 { Some(TokenKind::At) }
        else if ch == 63u8 { Some(TokenKind::Question) }
        else if ch == 43u8 {
            if self.match_char(43u8) { Some(TokenKind::PlusPlus) }
            else if self.match_char(61u8) { Some(TokenKind::PlusAssign) }
            else { Some(TokenKind::Plus) }
        } else if ch == 45u8 {
            if self.match_char(62u8) { Some(TokenKind::Arrow) }
            else if self.match_char(61u8) { Some(TokenKind::MinusAssign) }
            else { Some(TokenKind::Minus) }
        } else if ch == 42u8 {
            if self.match_char(61u8) { Some(TokenKind::StarAssign) } else { Some(TokenKind::Star) }
        } else if ch == 47u8 {
            if self.match_char(61u8) { Some(TokenKind::SlashAssign) } else { Some(TokenKind::Slash) }
        } else if ch == 37u8 {
            if self.match_char(61u8) { Some(TokenKind::PercentAssign) } else { Some(TokenKind::Percent) }
        } else if ch == 61u8 {
            if self.match_char(61u8) { Some(TokenKind::Eq) }
            else if self.match_char(62u8) { Some(TokenKind::FatArrow) }
            else { Some(TokenKind::Assign) }
        } else if ch == 33u8 {
            if self.match_char(61u8) { Some(TokenKind::NotEq) }
            else if self.match_char(33u8) { Some(TokenKind::BangBang) }
            else { None }
        } else if ch == 60u8 {
            if self.match_char(61u8) { Some(TokenKind::LtEq) }
            else if self.match_char(60u8) { Some(TokenKind::ShiftLeft) }
            else { Some(TokenKind::Lt) }
        } else if ch == 62u8 {
            if self.match_char(61u8) { Some(TokenKind::GtEq) }
            else if self.match_char(62u8) { Some(TokenKind::ShiftRight) }
            else { Some(TokenKind::Gt) }
        } else if ch == 38u8 { Some(TokenKind::Ampersand) }
        else if ch == 124u8 { Some(TokenKind::Pipe) }
        else if ch == 94u8 { Some(TokenKind::Caret) }
        else if ch == 58u8 {
            if self.match_char(58u8) { Some(TokenKind::ColonColon) } else { Some(TokenKind::Colon) }
        } else if ch == 46u8 {
            if self.match_char(46u8) { Some(TokenKind::DotDot) } else { Some(TokenKind::Dot) }
        } else {
            None
        }
    }

    /// The source text from `start` up to the current position.
    fn lexeme(&self, start: usize) -> (s: String)
        requires
            self.wf(),
            start < self.pos,
            self.bytes@[start as int] < 0x80,
            self.bytes@[self.pos - 1] < 0x80,
        ensures
            encode_utf8(s@) == self.bytes@.subrange(start as int, self.pos as int),
    {
        proof {
            self.lemma_wf();
            lemma_ascii_boundaries(self.bytes@, start as int, self.pos as int);
        }
        slice_text(self.source, start, self.pos)
    }

    fn scan_identifier(&mut self, start: usize) -> (r: Result<Token, Diagnostic>)
        requires
            old(self).wf(),
            start + 1 == old(self).pos,
            is_word_start(old(self).bytes@[start as int]),
        ensures
            final(self).wf(),
            final(self).source == old(self).source,
            final(self).bytes == old(self).bytes,
            final(self).filename == old(self).filename,
            r is Ok,
            r matches Ok(t) && {
                &&& token_fits(old(self).bytes@, t)
                &&& t.span.start == start
                &&& t.span.end == final(self).pos
                &&& t.kind != TokenKind::Newline && t.kind != TokenKind::Eof
                &&& final(self).prev_can_end_statement == ends_statement(t.kind)
            },
    {
        proof {
            reveal(token_fits);
        }
        let ghost b = self.bytes@;
        self.skip_run(ByteClass::Word);
        proof {
            lemma_run_end_bounds(b, start as int + 1, ByteClass::Word);
            if self.pos > start + 1 {
                lemma_class_ascii(ByteClass::Word, b[self.pos - 1]);
            }
        }
        let text = self.lexeme(start);
        let kind = match TokenKind::keyword(text.as_str()) {
            Some(k) => k,
            None => TokenKind::Identifier,
        };
        proof {
            assert(kind == word_kind(text@));
            assert(kind != TokenKind::Newline && kind != TokenKind::Eof) by {
                reveal_strlit("op");
            }
        }
        self.prev_can_end_statement = can_end_statement(kind);
        Ok(Token::new(kind, Span::new(start, self.pos), text))
    }

    /// Advance over a maximal run of bytes of `class`.
    fn skip_run(&mut self, class: ByteClass)
        requires
            old(self).wf(),
        ensures
            final(self).wf(),
            final(self).source == old(self).source,
            final(self).bytes == old(self).bytes,
            final(self).filename == old(self).filename,
            final(self).prev_can_end_statement == old(self).prev_can_end_statement,
            final(self).pos == run_end(old(self).bytes@, old(self).pos as int, class),
    {
        let ghost b = self.bytes@;
        let ghost p0 = self.pos as int;
        while self.pos < self.bytes.len() && byte_in_class(class, self.bytes[self.pos])
            invariant
                self.wf(),
                self.bytes@ == b,
                self.source == old(self).source,
                self.bytes == old(self).bytes,
                self.filename == old(self).filename,
                self.prev_can_end_statement == old(self).prev_can_end_statement,
                p0 <= self.pos,
                run_end(b, p0, class) == run_end(b, self.pos as int, class),
            decreases self.bytes@.len() - self.pos,
        {
            self.pos = self.pos + 1;
        }
    }

    fn scan_number(&mut self, start: usize) -> (r: Result<Token, Diagnostic>)
        requires
            old(self).wf(),
            start + 1 == old(self).pos,
            is_digit(old(self).bytes@[start as int]),
        ensures
            final(self).wf(),
            final(self).source == old(self).source,
            final(self).bytes == old(self).bytes,
            final(self).filename == old(self).filename,
            r is Ok,
            r matches Ok(t) && {
                &&& token_fits(old(self).bytes@, t)
                &&& t.span.start == start
                &&& t.span.end == final(self).pos
                &&& t.kind != TokenKind::Newline && t.kind != TokenKind::Eof
                &&& final(self).prev_can_end_statement == ends_statement(t.kind)
            },
    {
        proof {
            reveal(token_fits);
        }
        let ghost b = self.bytes@;
        let first = self.bytes[start];
        let mut radix_class: Option<ByteClass> = None;
        if first == 48u8 {
            match self.peek() {
                Some(c) => {
                    if c == 120u8 || c == 88u8 {
                        radix_class = Some(ByteClass::Hex);
                    } else if c == 98u8 || c == 66u8 {
                        radix_class = Some(ByteClass::Binary);
                    } else if c == 111u8 || c == 79u8 {
                        radix_class = Some(ByteClass::Octal);
                    }
                },
                None => {},
            }
        }
        let mut is_float = false;
        match radix_class {
            Some(class) => {
                self.advance();
                self.skip_run(class);
                proof {
                    lemma_run_end_bounds(b, start as int + 2, class);
                    if self.pos > start + 2 {
                        lemma_class_ascii(class, b[self.pos - 1]);
                    }
                }
            },
            None => {
                self.skip_run(ByteClass::Decimal);
                proof {
                    lemma_run_end_bounds(b, start as int + 1, ByteClass::Decimal);
                    if self.pos > start + 1 {
                        lemma_class_ascii(ByteClass::Decimal, b[self.pos - 1]);
                    }
                }
                let ghost d = self.pos as int;
                // Fractional part
                if self.peek() == Some(46u8) && self.peek_is_digit_at(1) {
                    is_float = true;
                    self.advance();
                    self.skip_run(ByteClass::Decimal);
                    proof {
                        assert(run_end(b, d + 1, ByteClass::Decimal) == run_end(b, d + 2, ByteClass::Decimal));
                        lemma_run_end_bounds(b, d + 2, ByteClass::Decimal);
                        lemma_run_end_bounds(b, d + 1, ByteClass::Decimal);
                        lemma_class_ascii(ByteClass::Decimal, b[self.pos - 1]);
                    }
                }
                let ghost f = self.pos as int;
                assert(fraction_end(b, d) == (f, is_float));
                // Exponent
                if self.peek() == Some(101u8) || self.peek() == Some(69u8) {
                    is_float = true;
                    self.advance();
                    if self.peek() == Some(43u8) || self.peek() == Some(45u8) {
                        self.advance();
                    }
                    let ghost g = self.pos as int;
                    self.skip_run(ByteClass::Decimal);
                    proof {
                        lemma_run_end_bounds(b, g, ByteClass::Decimal);
                        if self.pos > g {
                            lemma_class_ascii(ByteClass::Decimal, b[self.pos - 1]);
                        }
                    }
                }
            },
        }
        let lexeme = self.lexeme(start);
        let kind = if is_float {
            TokenKind::FloatLiteral
        } else {
            TokenKind::IntLiteral
        };
        self.prev_can_end_statement = true;
        Ok(Token::new(kind, Span::new(start, self.pos), lexeme))
    }

    fn peek_is_digit_at(&self, offset: usize) -> (r: bool)
        requires
            self.wf(),
        ensures
            r == (self.pos + offset < self.bytes@.len() && is_digit(self.bytes@[self.pos + offset])),
    {
        if offset < self.bytes.len() - self.pos {
            let c = self.bytes[self.pos + offset];
            48u8 <= c && c <= 57u8
        } else {
            false
        }
    }

    fn scan_string(&mut self, start: usize) -> (r: Result<Token, Diagnostic>)
        requires
            old(self).wf(),
            start + 1 == old(self).pos,
            old(self).bytes@[start as int] == 34,
        ensures
            final(self).wf(),
            final(self).source == old(self).source,
            final(self).bytes == old(self).bytes,
            final(self).filename == old(self).filename,
            old(self).pos <= final(self).pos,
            match r {
                Ok(t) => {
                    &&& token_fits(old(self).bytes@, t)
                    &&& t.span.start == start
                    &&& t.span.end == final(self).pos
                    &&& t.kind != TokenKind::Newline && t.kind != TokenKind::Eof
                    &&& final(self).prev_can_end_statement == ends_statement(t.kind)
                },
                Err(d) => {
                    &&& d.kind == DiagnosticKind::Error
                    &&& d.filename.is_some() && d.filename.unwrap()@ == old(self).filename@
                    &&& d.span.is_some()
                    &&& start <= d.span.unwrap().start <= d.span.unwrap().end <= final(self).pos
                    &&& final(self).prev_can_end_statement == old(self).prev_can_end_statement
                    &&& string_end(old(self).bytes@, start + 1) is None
                },
            },
    {
        proof {
            reveal(token_fits);
        }
        let ghost b = self.bytes@;
        while !self.at_end()
            invariant
                self.wf(),
                self.bytes@ == b,
                self.source == old(self).source,
                self.bytes == old(self).bytes,
                self.filename == old(self).filename,
                self.prev_can_end_statement == old(self).prev_can_end_statement,
                start < self.pos,
                old(self).pos <= self.pos,
                b[start as int] == 34,
                string_end(b, start + 1) == string_end(b, self.pos as int),
            decreases self.bytes@.len() - self.pos,
        {
            let c = self.bytes[self.pos];
            if c == 34u8 {
                self.advance();
                self.prev_can_end_statement = true;
                let lexeme = self.lexeme(start);
                proof {
                    reveal(token_fits);
                }
                return Ok(Token::new(TokenKind::StringLiteral, Span::new(start, self.pos), lexeme));
            } else if c == 92u8 {
                self.advance();
                match self.peek() {
                    Some(e) => {
                        if e == 110u8 || e == 116u8 || e == 114u8 || e == 92u8 || e == 34u8
                            || e == 48u8 {
                            self.advance();
                        } else {
                            let esc_pos = self.pos;
                            self.advance();
                            let message = String::from_str("unknown escape sequence '\\");
                            let message = message.concat(char_to_text(e as char).as_str());
                            let message = message.concat("'");
                            return Err(
                                Diagnostic::error(message).with_span(
                                    Span::new(esc_pos - 1, self.pos),
                                ).with_file(self.filename.as_str()),
                            );
                        }
                    },
                    None => {
                        return Err(
                            Diagnostic::error(String::from_str("unterminated escape sequence")).with_span(
                                Span::new(self.pos - 1, self.pos),
                            ).with_file(self.filename.as_str()),
                        );
                    },
                }
            } else if c == 10u8 {
                return Err(
                    Diagnostic::error(String::from_str("unterminated string literal")).with_span(
                        Span::new(start, self.pos),
                    ).with_file(self.filename.as_str()).with_help(
                        String::from_str("string literals cannot span multiple lines"),
                    ),
                );
            } else {
                self.advance();
            }
        }
        Err(
            Diagnostic::error(String::from_str("unterminated string literal")).with_span(
                Span::new(start, self.pos),
            ).with_file(self.filename.as_str()),
        )
    }

    fn scan_char(&mut self, start: usize) -> (r: Result<Token, Diagnostic>)
        requires
            old(self).wf(),
            start + 1 == old(self).pos,
            old(self).bytes@[start as int] == 39,
        ensures
            final(self).wf(),
            final(self).source == old(self).source,
            final(self).bytes == old(self).bytes,
            final(self).filename == old(self).filename,
            old(self).pos <= final(self).pos,
            match r {
                Ok(t) => {
                    &&& token_fits(old(self).bytes@, t)
                    &&& t.span.start == start
                    &&& t.span.end == final(self).pos
                    &&& t.kind != TokenKind::Newline && t.kind != TokenKind::Eof
                    &&& final(self).prev_can_end_statement == ends_statement(t.kind)
                },
                Err(d) => {
                    &&& d.kind == DiagnosticKind::Error
                    &&& d.filename.is_some() && d.filename.unwrap()@ == old(self).filename@
                    &&& d.span.is_some()
                    &&& start <= d.span.unwrap().start <= d.span.unwrap().end <= final(self).pos
                    &&& final(self).prev_can_end_statement == old(self).prev_can_end_statement
                    &&& char_end(old(self).bytes@, start as int) is None
                },
            },
    {
        proof {
            reveal(token_fits);
        }
        if self.at_end() {
            return Err(
                Diagnostic::error(String::from_str("unterminated character literal")).with_span(
                    Span::new(start, self.pos),
                ).with_file(self.filename.as_str()),
            );
        }
        let ch = self.advance();
        if ch == 92u8 {
            if self.at_end() {
                return Err(
                    Diagnostic::error(String::from_str("unterminated escape in character literal")).with_span(
                        Span::new(start, self.pos),
                    ).with_file(self.filename.as_str()),
                );
            }
            let esc = self.advance();
            if !(esc == 110u8 || esc == 116u8 || esc == 114u8 || esc == 92u8 || esc == 39u8
                || esc == 48u8) {
                let message = String::from_str("unknown escape sequence '\\");
                let message = message.concat(char_to_text(esc as char).as_str());
                let message = message.concat("'");
                return Err(
                    Diagnostic::error(message).with_span(Span::new(start, self.pos)).with_file(
                        self.filename.as_str(),
                    ),
                );
            }
        }
        if self.peek() != Some(39u8) {
            return Err(
                Diagnostic::error(String::from_str("unterminated character literal")).with_span(
                    Span::new(start, self.pos),
                ).with_file(self.filename.as_str()).with_help(
                    String::from_str("character literals must contain exactly one character"),
                ),
            );
        }
        self.advance();
        self.prev_can_end_statement = true;
        let lexeme = self.lexeme(start);
        Ok(Token::new(TokenKind::CharLiteral, Span::new(start, self.pos), lexeme))
    }

    /// Skip spaces, tabs and line comments (but not line breaks, which are
    /// statement separators).
    fn skip_whitespace_and_comments(&mut self)
        requires
            old(self).wf(),
        ensures
            final(self).wf(),
            final(self).source == old(self).source,
            final(self).bytes == old(self).bytes,
            final(self).filename == old(self).filename,
            final(self).prev_can_end_statement == old(self).prev_can_end_statement,
            blank_to(old(self).bytes@, old(self).pos as int, final(self).pos as int, false),
            final(self).pos == final(self).bytes@.len() || {
                let c = final(self).bytes@[final(self).pos as int];
                c != 32 && c != 9 && !comment_at(final(self).bytes@, final(self).pos as int)
            },
    {
        let ghost b = self.bytes@;
        let ghost p0 = self.pos as int;
        loop
            invariant
                self.wf(),
                self.bytes@ == b,
                self.source == old(self).source,
                self.bytes == old(self).bytes,
                self.filename == old(self).filename,
                self.prev_can_end_statement == old(self).prev_can_end_statement,
                blank_to(b, p0, self.pos as int, false),
            ensures
                self.wf(),
                self.bytes@ == b,
                self.source == old(self).source,
                self.bytes == old(self).bytes,
                self.filename == old(self).filename,
                self.prev_can_end_statement == old(self).prev_can_end_statement,
                blank_to(b, p0, self.pos as int, false),
                self.pos == b.len() || {
                    let c = b[self.pos as int];
                    c != 32 && c != 9 && !comment_at(b, self.pos as int)
                },
            decreases self.bytes@.len() - self.pos,
        {
            let ghost it0 = self.pos;
            // Skip spaces and tabs
            while self.pos < self.bytes.len() && (self.bytes[self.pos] == 32u8 || self.bytes[self.pos]
                == 9u8)
                invariant
                    self.wf(),
                    self.bytes@ == b,
                    self.source == old(self).source,
                    self.bytes == old(self).bytes,
                    self.filename == old(self).filename,
                    self.prev_can_end_statement == old(self).prev_can_end_statement,
                    blank_to(b, p0, self.pos as int, false),
                    it0 <= self.pos,
                decreases self.bytes@.len() - self.pos,
            {
                proof {
                    assert(blank_to(b, self.pos as int + 1, self.pos as int + 1, false));
                    assert(blank_to(b, self.pos as int, self.pos as int + 1, false));
                    lemma_blank_to_trans(b, p0, self.pos as int, self.pos as int + 1, false);
                }
                self.pos = self.pos + 1;
            }
            if self.bytes.len() - self.pos >= 2 && self.bytes[self.pos] == 45u8 && self.bytes[self.pos
                + 1] == 45u8 {
                // Line comment (also `---` doc comments and `--!` module comments):
                // skip to the end of the line.
                let c0 = self.pos;
                while self.pos < self.bytes.len() && self.bytes[self.pos] != 10u8
                    invariant
                        self.wf(),
                        self.bytes@ == b,
                        self.source == old(self).source,
                        self.bytes == old(self).bytes,
                        self.filename == old(self).filename,
                        self.prev_can_end_statement == old(self).prev_can_end_statement,
                        c0 <= self.pos,
                        line_end(b, c0 as int) == line_end(b, self.pos as int),
                    decreases self.bytes@.len() - self.pos,
                {
                    self.pos = self.pos + 1;
                }
                proof {
                    assert(self.pos > c0);
                    assert(comment_at(b, c0 as int));
                    assert(blank_to(b, self.pos as int, self.pos as int, false));
                    assert(blank_to(b, c0 as int, self.pos as int, false));
                    lemma_blank_to_trans(b, p0, c0 as int, self.pos as int, false);
                }
            } else {
                break;
            }
        }
    }

    // -- Low-level character access --

    fn at_end(&self) -> (b: bool)
        requires
            self.wf(),
        ensures
            b == (self.pos >= self.bytes@.len()),
    {
        self.pos >= self.bytes.len()
    }

    fn peek(&self) -> (c: Option<u8>)
        requires
            self.wf(),
        ensures
            c == (if self.pos < self.bytes@.len() {
                Some(self.bytes@[self.pos as int])
            } else {
                None
            }),
    {
        if self.pos < self.bytes.len() {
            Some(self.bytes[self.pos])
        } else {
            None
        }
    }

    fn advance(&mut self) -> (c: u8)
        requires
            old(self).wf(),
            old(self).pos < old(self).bytes@.len(),
        ensures
            final(self).wf(),
            final(self).source == old(self).source,
            final(self).bytes == old(self).bytes,
            final(self).filename == old(self).filename,
            final(self).prev_can_end_statement == old(self).prev_can_end_statement,
            final(self).pos == old(self).pos + 1,
            c == old(self).bytes@[old(self).pos as int],
    {
        let c = self.bytes[self.pos];
        self.pos = self.pos + 1;
        c
    }

    fn match_char(&mut self, expected: u8) -> (b: bool)
        requires
            old(self).wf(),
        ensures
            final(self).wf(),
            final(self).source == old(self).source,
            final(self).bytes == old(self).bytes,
            final(self).filename == old(self).filename,
            final(self).prev_can_end_statement == old(self).prev_can_end_statement,
            b == (old(self).pos < old(self).bytes@.len() && old(self).bytes@[old(self).pos as int]
                == expected),
            final(self).pos == old(self).pos + (if b { 1int } else { 0int }),
    {
        if self.pos < self.bytes.len() && self.bytes[self.pos] == expected {
            self.pos = self.pos + 1;
            true
        } else {
            false
        }
    }
}

} // verus!
