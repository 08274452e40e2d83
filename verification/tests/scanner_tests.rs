use galaxc::lexer::{Scanner, Token, TokenKind};

fn tokenize(src: &str) -> Vec<Token> {
    let mut scanner = Scanner::new(src, "test.gxc");
    let mut tokens = Vec::new();
    loop {
        let tok = scanner.next_token().expect("unexpected lexer error");
        let is_eof = tok.kind == TokenKind::Eof;
        tokens.push(tok);
        if is_eof {
            break;
        }
    }
    tokens
}

fn kinds(src: &str) -> Vec<TokenKind> {
    tokenize(src).into_iter().map(|t| t.kind).collect()
}

#[test]
fn simple_keywords() {
    assert_eq!(
        kinds("op let var const end"),
        vec![
            TokenKind::Op,
            TokenKind::Let,
            TokenKind::Var,
            TokenKind::Const,
            TokenKind::End,
            TokenKind::Eof,
        ]
    );
}

#[test]
fn operators() {
    assert_eq!(
        kinds("+ - * / == != => -> :: .."),
        vec![
            TokenKind::Plus,
            TokenKind::Minus,
            TokenKind::Star,
            TokenKind::Slash,
            TokenKind::Eq,
            TokenKind::NotEq,
            TokenKind::FatArrow,
            TokenKind::Arrow,
            TokenKind::ColonColon,
            TokenKind::DotDot,
            TokenKind::Eof,
        ]
    );
}

#[test]
fn string_literal() {
    let tokens = tokenize("\"hello world\"");
    assert_eq!(tokens[0].kind, TokenKind::StringLiteral);
    assert_eq!(tokens[0].lexeme, "\"hello world\"");
}

#[test]
fn integer_literals() {
    assert_eq!(
        kinds("42 0xFF 0b1010 1_000_000"),
        vec![
            TokenKind::IntLiteral,
            TokenKind::IntLiteral,
            TokenKind::IntLiteral,
            TokenKind::IntLiteral,
            TokenKind::Eof,
        ]
    );
}

#[test]
fn float_literal() {
    assert_eq!(
        kinds("3.14 1.0e10 2.5E-3"),
        vec![
            TokenKind::FloatLiteral,
            TokenKind::FloatLiteral,
            TokenKind::FloatLiteral,
            TokenKind::Eof,
        ]
    );
}

#[test]
fn comments_skipped() {
    assert_eq!(
        kinds("let x = 42 -- this is a comment"),
        vec![
            TokenKind::Let,
            TokenKind::Identifier,
            TokenKind::Assign,
            TokenKind::IntLiteral,
            TokenKind::Eof,
        ]
    );
}

#[test]
fn fat_arrow_block() {
    assert_eq!(
        kinds("op foo() =>\n    return 42\nend"),
        vec![
            TokenKind::Op,
            TokenKind::Identifier,
            TokenKind::LParen,
            TokenKind::RParen,
            TokenKind::FatArrow,
            TokenKind::Newline,
            TokenKind::Return,
            TokenKind::IntLiteral,
            TokenKind::Newline,
            TokenKind::End,
            TokenKind::Eof,
        ]
    );
}

#[test]
fn unknown_string_escape_is_an_error() {
    let r = galaxc::lexer::tokenize("let s = \"a\\qb\"", "t.gxc");
    let errors = r.expect_err("an unknown escape has no lexing");
    // scanning goes on after the bad escape, and the closing quote then
    // opens a string that is never closed
    assert_eq!(errors.len(), 2);
    assert_eq!(errors[0].message, "unknown escape sequence '\\q'");
    assert_eq!(errors[1].message, "unterminated string literal");
}

#[test]
fn character_literal_of_two_bytes_is_an_error() {
    let r = galaxc::lexer::tokenize("'ab'", "t.gxc");
    assert!(r.is_err());
}

#[test]
fn escaped_quote_in_character_literal_lexes() {
    let tokens = galaxc::lexer::tokenize("'\\''", "t.gxc").expect("lexes");
    assert_eq!(tokens.len(), 2);
    assert_eq!(tokens[0].kind, TokenKind::CharLiteral);
    assert_eq!(tokens[0].lexeme, "'\\''");
    assert_eq!(tokens[0].span.end, 4);
}

#[test]
fn lone_bang_is_an_error_and_line_comment_is_not() {
    assert!(galaxc::lexer::tokenize("a ! b", "t.gxc").is_err());
    let tokens = galaxc::lexer::tokenize("a -- ! b", "t.gxc").expect("comment hides the bang");
    assert_eq!(tokens.len(), 2);
    assert_eq!(tokens[0].kind, TokenKind::Identifier);
    assert_eq!(tokens[1].kind, TokenKind::Eof);
}

#[test]
fn the_same_text_lexes_to_the_same_tokens() {
    let a = galaxc::lexer::tokenize("x == 1 -- note\ny >= 2.5", "t.gxc").expect("lexes");
    let b = galaxc::lexer::tokenize("x == 1 -- note\ny >= 2.5", "u.gxc").expect("lexes");
    assert_eq!(a.len(), b.len());
    for (s, t) in a.iter().zip(b.iter()) {
        assert_eq!(s.kind, t.kind);
        assert_eq!(s.span.start, t.span.start);
        assert_eq!(s.span.end, t.span.end);
        assert_eq!(s.lexeme, t.lexeme);
    }
    let kinds: Vec<TokenKind> = a.iter().map(|t| t.kind).collect();
    assert_eq!(
        kinds,
        vec![
            TokenKind::Identifier,
            TokenKind::Eq,
            TokenKind::IntLiteral,
            TokenKind::Newline,
            TokenKind::Identifier,
            TokenKind::GtEq,
            TokenKind::FloatLiteral,
            TokenKind::Eof
        ]
    );
}

#[test]
fn every_stray_character_is_reported() {
    let errors = galaxc::lexer::tokenize("$ #", "t.gxc").unwrap_err();
    assert_eq!(errors.len(), 2);
    assert_eq!(errors[0].message, "unexpected character '$'");
    assert_eq!(errors[0].span, Some(galaxc::diagnostics::Span::new(0, 1)));
    assert_eq!(errors[1].message, "unexpected character '#'");
    assert_eq!(errors[1].span, Some(galaxc::diagnostics::Span::new(2, 3)));
}
