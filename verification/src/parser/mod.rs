//! Parser: turns a token stream into the abstract syntax tree. Declarations
//! and statements are read by recursive descent, expressions by precedence
//! climbing.

pub mod literal;
pub mod state;
pub mod decl;
pub mod stmt;
pub mod expr;
pub mod types;
pub mod pattern;

pub use state::{Parser, stream_ok, blank_from};
use state::{empty_ops_program, holds_empty_ops};
use state::{filtered, refuses_first, module_only, names_module, no_declaration_message, skip_newlines_from, opens_bracket, lemma_filtered_plain, lemma_filtered_ok};

use vstd::prelude::*;
use crate::lexer::Token;
use crate::ast::Program;
use crate::diagnostics::{Diagnostic, DiagnosticKind};
use crate::lexer::{lexed, TokenKind};
use crate::lexer::rules::{token_fits, lexeme_fits, is_word_start, is_digit, punct_at, lemma_string_end_quote};
use crate::lexer::token::spec_keyword;
use crate::text::lemma_ascii_ends;
use state::quoted_lexeme_ok;

verus! {

/// Parse a token stream into a complete program, or give every error found.
/// The parser reads the stream without the line breaks that stand inside
/// brackets (`filtered`). The program has a module declaration exactly when
/// the stream starts with `orbit`; a stream of nothing but line breaks is
/// the empty program, and one of `orbit`, a name and line breaks the
/// program of that module alone; a stream whose first item is no
/// declaration is refused, its first error saying so; and a stream of
/// operations with empty bodies (see `empty_ops_program`) is the program of
/// those operations.
pub fn parse(tokens: Vec<Token>, source: &str, filename: &str) -> (r: Result<Program, Vec<Diagnostic>>)
    requires
        stream_ok(tokens@),
    ensures
        blank_from(tokens@, 0) ==> (r matches Ok(p) && p.module_decl is None && p.imports@.len() == 0
            && p.items@.len() == 0),
        module_only(tokens@, 0) ==> (r matches Ok(p) && names_module(p.module_decl, tokens@[1].lexeme@)
            && p.imports@.len() == 0 && p.items@.len() == 0),
        refuses_first(filtered(tokens@), 0) ==> (r matches Err(errors) && errors@[0].message@
            == no_declaration_message(filtered(tokens@)[skip_newlines_from(filtered(tokens@), 0)].kind)),
        forall|m: Option<Seq<char>>, names: Seq<Seq<char>>|
            #[trigger] empty_ops_program(filtered(tokens@), 0, m, names) ==> (r matches Ok(p) && holds_empty_ops(
                p,
                m,
                names,
            )),
        match r {
            Ok(p) => p.module_decl is Some <==> tokens@[0].kind == TokenKind::Orbit,
            Err(errors) => {
                &&& errors@.len() > 0
                &&& forall|i: int|
                    0 <= i < errors@.len() ==> (#[trigger] errors@[i]).kind == DiagnosticKind::Error
            },
        },
{
    proof {
        if module_only(tokens@, 0) {
            assert forall|i: int| 0 <= i < tokens@.len() implies !opens_bracket(#[trigger] tokens@[i].kind) by {
                if 2 <= i < tokens@.len() - 1 {
                    assert(tokens@[i].kind == TokenKind::Newline);
                }
            }
            lemma_filtered_plain(tokens@, tokens@.len() as int);
            assert(filtered(tokens@) =~= tokens@);
        }
        if blank_from(tokens@, 0) {
            assert forall|i: int| 0 <= i < tokens@.len() implies !opens_bracket(#[trigger] tokens@[i].kind) by {
                if i < tokens@.len() - 1 {
                    assert(tokens@[i].kind == TokenKind::Newline);
                }
            }
            lemma_filtered_plain(tokens@, tokens@.len() as int);
            assert(filtered(tokens@) =~= tokens@);
        }
        lemma_filtered_ok(tokens@);
    }
    let mut parser = Parser::new(tokens, source, filename);
    parser.parse_program()
}

/// The bytes of a string or character literal token start and end with an
/// ASCII quote, and there are at least two of them.
proof fn lemma_quoted_bytes(b: Seq<u8>, s: int, e: int, kind: TokenKind, text: Seq<char>)
    requires
        0 <= s < e <= b.len(),
        lexeme_fits(b, s, e, kind, text),
        kind == TokenKind::StringLiteral || kind == TokenKind::CharLiteral,
    ensures
        s + 2 <= e,
        b[s] < 0x80,
        b[e - 1] < 0x80,
{
    if is_word_start(b[s]) {
        assert(spec_keyword(text) != Some(TokenKind::StringLiteral));
        assert(spec_keyword(text) != Some(TokenKind::CharLiteral));
    } else if is_digit(b[s]) {
    } else if b[s] == 34 {
        lemma_string_end_quote(b, s + 1);
    } else if b[s] == 39 {
    } else {
        assert(punct_at(b, s) != Some((kind, e - s)));
    }
}

/// The lexeme of a string or character literal token holds its quotes.
proof fn lemma_token_quoted(b: Seq<u8>, t: Token)
    requires
        token_fits(b, t),
    ensures
        quoted_lexeme_ok(t),
{
    if t.kind == TokenKind::StringLiteral || t.kind == TokenKind::CharLiteral {
        reveal(token_fits);
        let s = t.span.start as int;
        let e = t.span.end as int;
        lemma_quoted_bytes(b, s, e, t.kind, t.lexeme@);
        let piece = b.subrange(s, e);
        assert(vstd::utf8::encode_utf8(t.lexeme@) == piece);
        assert(piece[0] == b[s]);
        assert(piece.last() == b[e - 1]);
        lemma_ascii_ends(t.lexeme@);
    }
}

/// Every complete token stream of a text is one the parser can read.
pub proof fn lemma_lexed_stream_ok(b: Seq<u8>, toks: Seq<Token>)
    requires
        lexed(b, toks),
    ensures
        stream_ok(toks),
{
    assert forall|i: int| 0 <= i < toks.len() implies quoted_lexeme_ok(#[trigger] toks[i]) by {
        lemma_token_quoted(b, toks[i]);
    }
}

} // verus!
