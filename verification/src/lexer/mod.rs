//! Lexer: turns GalaxC source text into a stream of tokens.

pub mod token;
pub mod rules;
pub mod scanner;
pub mod unique;

pub use token::{Token, TokenKind};
pub use scanner::Scanner;

use vstd::prelude::*;
use vstd::string::*;
use vstd::utf8::encode_utf8;
use crate::diagnostics::{Diagnostic, DiagnosticKind};
use token::ends_statement;
use rules::{blank_to, token_fits, lemma_blank_to_le};
use scanner::{scan_step, stray_at, spaces_and_strays, next_stray, unexpected_message, lemma_next_stray};
use crate::diagnostics::Span;

verus! {

/// Whether a line break right after a token of kind `k` ends a statement.
pub open spec fn ends_line(k: TokenKind) -> bool {
    k != TokenKind::Newline && ends_statement(k)
}

/// Token `t` follows position `p` of the bytes `b`, where `prev` tells
/// whether the token before `p` can end a statement: only blanks lie between
/// (line breaks count as blanks unless `prev` holds), and `t` is a line
/// break token only when `prev` holds.
#[verifier::opaque]
pub open spec fn follows(b: Seq<u8>, p: int, prev: bool, t: Token) -> bool {
    &&& blank_to(b, p, t.span.start as int, !prev)
    &&& (t.kind == TokenKind::Newline ==> prev)
}

/// `toks` is a run of tokens read from the bytes `b` from their start: each
/// token fits the lexical grammar and follows the one before it (the first
/// follows the start of the text), and no token but possibly the last is
/// the end of the file.
pub open spec fn tokens_follow(b: Seq<u8>, toks: Seq<Token>) -> bool {
    &&& forall|i: int| 0 <= i < toks.len() ==> token_fits(b, #[trigger] toks[i])
    &&& toks.len() > 0 ==> follows(b, 0, false, toks[0])
    &&& forall|i: int|
        0 <= i < toks.len() - 1 ==> {
            &&& follows(
                b,
                (#[trigger] toks[i]).span.end as int,
                ends_line(toks[i].kind),
                toks[i + 1],
            )
            &&& toks[i].kind != TokenKind::Eof
        }
}

/// `toks` is the complete token stream of the bytes `b`: it follows the
/// text and ends with the one end-of-file token.
pub open spec fn lexed(b: Seq<u8>, toks: Seq<Token>) -> bool {
    &&& tokens_follow(b, toks)
    &&& toks.len() > 0
    &&& toks.last().kind == TokenKind::Eof
}

/// Every token of a lexed text other than a line break and the end of the
/// file is the text it spans: its lexeme, encoded, is the slice of the
/// bytes between the ends of its span.
pub proof fn law_lexeme_is_slice(b: Seq<u8>, toks: Seq<Token>, i: int)
    requires
        lexed(b, toks),
        0 <= i < toks.len(),
        toks[i].kind != TokenKind::Eof,
        toks[i].kind != TokenKind::Newline,
    ensures
        toks[i].span.start < toks[i].span.end <= b.len(),
        encode_utf8(toks[i].lexeme@) == b.subrange(toks[i].span.start as int, toks[i].span.end as int),
{
    reveal(token_fits);
    assert(token_fits(b, toks[i]));
}

/// A diagnostic reported by the lexer for the text `b` of file `file`.
pub open spec fn lexer_error(b: Seq<u8>, file: Seq<char>, d: Diagnostic) -> bool {
    &&& d.kind == DiagnosticKind::Error
    &&& d.filename.is_some() && d.filename.unwrap()@ == file
    &&& d.span.is_some()
    &&& d.span.unwrap().start <= d.span.unwrap().end <= b.len()
}

proof fn lemma_follow_push(b: Seq<u8>, toks: Seq<Token>, t: Token, p: int, prev: bool)
    requires
        tokens_follow(b, toks),
        toks.len() == 0 ==> p == 0 && !prev,
        toks.len() > 0 ==> {
            &&& toks.last().span.end == p
            &&& prev == ends_line(toks.last().kind)
            &&& toks.last().kind != TokenKind::Eof
        },
        token_fits(b, t),
        blank_to(b, p, t.span.start as int, !prev),
        t.kind == TokenKind::Newline ==> prev,
    ensures
        tokens_follow(b, toks.push(t)),
{
    let ts = toks.push(t);
    assert(follows(b, p, prev, t)) by {
        reveal(follows);
    }
    assert forall|i: int| 0 <= i < ts.len() implies token_fits(b, #[trigger] ts[i]) by {
        if i < toks.len() {
            assert(ts[i] == toks[i]);
        }
    }
    assert forall|i: int| 0 <= i < ts.len() - 1 implies {
        &&& follows(
            b,
            (#[trigger] ts[i]).span.end as int,
            ends_line(ts[i].kind),
            ts[i + 1],
        )
        &&& ts[i].kind != TokenKind::Eof
    } by {
        assert(ts[i] == toks[i]);
        if i + 1 < toks.len() {
            assert(ts[i + 1] == toks[i + 1]);
        }
    }
}

/// The positions of the stray bytes (see `stray_at`) of `b` before `n`,
/// in order.
pub open spec fn strays_before(b: Seq<u8>, n: int) -> Seq<int>
    decreases n,
{
    if n <= 0 {
        Seq::empty()
    } else if stray_at(b, n - 1) {
        strays_before(b, n - 1).push(n - 1)
    } else {
        strays_before(b, n - 1)
    }
}

/// The diagnostics `es` report the stray bytes of `b` before `n`: one for
/// each, in order, naming the character and spanning its byte.
pub open spec fn reports_strays(b: Seq<u8>, n: int, es: Seq<Diagnostic>) -> bool {
    let ps = strays_before(b, n);
    &&& es.len() == ps.len()
    &&& forall|k: int|
        0 <= k < ps.len() ==> {
            &&& (#[trigger] es[k]).message@ == unexpected_message(b[ps[k]])
            &&& es[k].span == Some(Span { start: ps[k] as usize, end: (ps[k] + 1) as usize })
        }
}

/// Spaces add no stray byte.
proof fn lemma_strays_over_spaces(b: Seq<u8>, p: int, q: int)
    requires
        0 <= p <= q,
        forall|i: int| p <= i < q ==> b[i] == 32,
    ensures
        strays_before(b, q) == strays_before(b, p),
    decreases q - p,
{
    if q > p {
        lemma_strays_over_spaces(b, p, q - 1);
        assert(b[q - 1] == 32);
    }
}

/// Tokenize a complete source string. Returns all tokens (ending with the
/// end-of-file token), or every lexer-level diagnostic when any was found.
pub fn tokenize(source: &str, filename: &str) -> (r: Result<Vec<Token>, Vec<Diagnostic>>)
    ensures
        match r {
            Ok(tokens) => lexed(source.spec_bytes(), tokens@),
            Err(errors) => {
                &&& errors@.len() > 0
                &&& forall|toks: Seq<Token>| !lexed(source.spec_bytes(), toks)
                &&& forall|i: int|
                    0 <= i < errors@.len() ==> lexer_error(
                        source.spec_bytes(),
                        filename@,
                        #[trigger] errors@[i],
                    )
            },
        },
        spaces_and_strays(source.spec_bytes()) && strays_before(source.spec_bytes(), source.spec_bytes().len() as int).len()
            > 0 ==> (r matches Err(errors) && reports_strays(
            source.spec_bytes(),
            source.spec_bytes().len() as int,
            errors@,
        )),
{
    let mut scanner = Scanner::new(source, filename);
    let mut tokens: Vec<Token> = Vec::new();
    let mut errors: Vec<Diagnostic> = Vec::new();
    let ghost b = source.spec_bytes();
    proof {
        scanner.lemma_wf();
    }
    loop
        invariant_except_break
            errors@.len() == 0 ==> {
                &&& tokens_follow(b, tokens@)
                &&& tokens@.len() == 0 ==> scanner.position() == 0
                    && !scanner.after_statement_end()
                &&& tokens@.len() > 0 ==> {
                    &&& tokens@.last().span.end == scanner.position()
                    &&& scanner.after_statement_end() == ends_line(tokens@.last().kind)
                    &&& tokens@.last().kind != TokenKind::Eof
                }
            },
        invariant
            scanner.wf(),
            scanner.text() == b,
            scanner.file() == filename@,
            0 <= scanner.position() <= b.len(),
            forall|i: int|
                0 <= i < errors@.len() ==> lexer_error(b, filename@, #[trigger] errors@[i]),
            errors@.len() > 0 ==> forall|toks: Seq<Token>| !lexed(b, toks),
            spaces_and_strays(b) ==> reports_strays(b, scanner.position() as int, errors@),
        ensures
            errors@.len() == 0 ==> lexed(b, tokens@),
            errors@.len() > 0 ==> forall|toks: Seq<Token>| !lexed(b, toks),
            forall|i: int|
                0 <= i < errors@.len() ==> lexer_error(b, filename@, #[trigger] errors@[i]),
            spaces_and_strays(b) ==> reports_strays(b, b.len() as int, errors@),
        decreases b.len() - scanner.position(),
    {
        let ghost p0 = scanner.position();
        let ghost prev0 = scanner.after_statement_end();
        let ghost old_tokens = tokens@;
        let ghost old_errors = errors@;
        let r = scanner.next_token();
        proof {
            scanner.lemma_wf();
            if spaces_and_strays(b) {
                lemma_next_stray(b, p0 as int);
                let st = next_stray(b, p0 as int);
                lemma_strays_over_spaces(b, p0 as int, st);
                if st < b.len() {
                    assert(strays_before(b, st + 1) == strays_before(b, st).push(st));
                }
            }
        }
        match r {
            Ok(token) => {
                let is_eof = token.kind == TokenKind::Eof;
                proof {
                    lemma_blank_to_le(b, p0, token.span.start as int, !prev0);
                }
                proof {
                    if errors@.len() == 0 {
                        lemma_follow_push(b, old_tokens, token, p0, prev0);
                    }
                }
                tokens.push(token);
                if is_eof {
                    break;
                }
            },
            Err(diag) => {
                proof {
                    if errors@.len() == 0 {
                        assert forall|toks: Seq<Token>| !lexed(b, toks) by {
                            unique::lemma_stuck_not_lexed(b, old_tokens, p0, prev0, toks);
                        }
                    }
                }
                errors.push(diag);
                proof {
                    if spaces_and_strays(b) {
                        let ps = strays_before(b, scanner.position() as int);
                        assert forall|k: int| 0 <= k < ps.len() implies {
                            &&& (#[trigger] errors@[k]).message@ == unexpected_message(b[ps[k]])
                            &&& errors@[k].span == Some(Span { start: ps[k] as usize, end: (ps[k] + 1) as usize })
                        } by {
                            if k < ps.len() - 1 {
                                assert(errors@[k] == old_errors[k]);
                            }
                        }
                    }
                    assert forall|i: int| 0 <= i < errors@.len() implies lexer_error(
                        b,
                        filename@,
                        #[trigger] errors@[i],
                    ) by {
                        if i < errors@.len() - 1 {
                            assert(errors@[i] == old_errors[i]);
                        }
                    }
                }
            },
        }
    }
    if errors.len() == 0 {
        Ok(tokens)
    } else {
        Err(errors)
    }
}

} // verus!
