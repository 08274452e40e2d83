//! Token definitions: every lexeme produced by the scanner is tagged with a
//! kind and carries its source span.

use vstd::prelude::*;
use vstd::string::*;
use crate::diagnostics::Span;
use crate::text::str_eq;

verus! {

broadcast use vstd::string::group_string_axioms;

/// All distinct token types in GalaxC.
#[derive(Debug, Clone, Copy, PartialEq, Eq, Hash, Structural)]
pub enum TokenKind {
    IntLiteral,
    FloatLiteral,
    StringLiteral,
    CharLiteral,
    Identifier,
    Op,
    Let,
    Var,
    Const,
    Struct,
    Enum,
    Ability,
    Impl,
    Task,
    Protected,
    Orbit,
    Dock,
    Body,
    Pub,
    Extern,
    If,
    Else,
    Match,
    For,
    While,
    Loop,
    Break,
    Continue,
    Return,
    Select,
    Accept,
    Or,
    Delay,
    When,
    True,
    False,
    None_,
    Ok_,
    Err_,
    Some_,
    SelfLower,
    SelfUpper,
    Mut,
    Ref,
    Own,
    Safe,
    Unsafe,
    As,
    In,
    End,
    Async,
    Unit,
    StaticAssert,
    Plus,
    Minus,
    Star,
    Slash,
    Percent,
    PlusPlus,
    Eq,
    NotEq,
    Lt,
    Gt,
    LtEq,
    GtEq,
    And,
    Not,
    Ampersand,
    Pipe,
    Caret,
    Tilde,
    ShiftLeft,
    ShiftRight,
    Pipeline,
    Assign,
    PlusAssign,
    MinusAssign,
    StarAssign,
    SlashAssign,
    PercentAssign,
    LParen,
    RParen,
    LBracket,
    RBracket,
    LBrace,
    RBrace,
    Arrow,
    FatArrow,
    Colon,
    ColonColon,
    Comma,
    Dot,
    DotDot,
    Question,
    BangBang,
    At,
    Semicolon,
    Newline,
    DocComment,
    Eof,
}

/// The keyword spelled by `text`, if any.
pub open spec fn spec_keyword(text: Seq<char>) -> Option<TokenKind> {
    if text == "op"@ {
        Some(TokenKind::Op)
    } else if text == "let"@ {
        Some(TokenKind::Let)
    } else if text == "var"@ {
        Some(TokenKind::Var)
    } else if text == "const"@ {
        Some(TokenKind::Const)
    } else if text == "struct"@ {
        Some(TokenKind::Struct)
    } else if text == "enum"@ {
        Some(TokenKind::Enum)
    } else if text == "ability"@ {
        Some(TokenKind::Ability)
    } else if text == "impl"@ {
        Some(TokenKind::Impl)
    } else if text == "task"@ {
        Some(TokenKind::Task)
    } else if text == "protected"@ {
        Some(TokenKind::Protected)
    } else if text == "orbit"@ {
        Some(TokenKind::Orbit)
    } else if text == "dock"@ {
        Some(TokenKind::Dock)
    } else if text == "body"@ {
        Some(TokenKind::Body)
    } else if text == "pub"@ {
        Some(TokenKind::Pub)
    } else if text == "extern"@ {
        Some(TokenKind::Extern)
    } else if text == "if"@ {
        Some(TokenKind::If)
    } else if text == "else"@ {
        Some(TokenKind::Else)
    } else if text == "match"@ {
        Some(TokenKind::Match)
    } else if text == "for"@ {
        Some(TokenKind::For)
    } else if text == "while"@ {
        Some(TokenKind::While)
    } else if text == "loop"@ {
        Some(TokenKind::Loop)
    } else if text == "break"@ {
        Some(TokenKind::Break)
    } else if text == "continue"@ {
        Some(TokenKind::Continue)
    } else if text == "return"@ {
        Some(TokenKind::Return)
    } else if text == "select"@ {
        Some(TokenKind::Select)
    } else if text == "accept"@ {
        Some(TokenKind::Accept)
    } else if text == "or"@ {
        Some(TokenKind::Or)
    } else if text == "delay"@ {
        Some(TokenKind::Delay)
    } else if text == "when"@ {
        Some(TokenKind::When)
    } else if text == "true"@ {
        Some(TokenKind::True)
    } else if text == "false"@ {
        Some(TokenKind::False)
    } else if text == "none"@ {
        Some(TokenKind::None_)
    } else if text == "ok"@ {
        Some(TokenKind::Ok_)
    } else if text == "err"@ {
        Some(TokenKind::Err_)
    } else if text == "some"@ {
        Some(TokenKind::Some_)
    } else if text == "self"@ {
        Some(TokenKind::SelfLower)
    } else if text == "Self"@ {
        Some(TokenKind::SelfUpper)
    } else if text == "mut"@ {
        Some(TokenKind::Mut)
    } else if text == "ref"@ {
        Some(TokenKind::Ref)
    } else if text == "own"@ {
        Some(TokenKind::Own)
    } else if text == "safe"@ {
        Some(TokenKind::Safe)
    } else if text == "unsafe"@ {
        Some(TokenKind::Unsafe)
    } else if text == "as"@ {
        Some(TokenKind::As)
    } else if text == "in"@ {
        Some(TokenKind::In)
    } else if text == "end"@ {
        Some(TokenKind::End)
    } else if text == "and"@ {
        Some(TokenKind::And)
    } else if text == "not"@ {
        Some(TokenKind::Not)
    } else if text == "async"@ {
        Some(TokenKind::Async)
    } else if text == "unit"@ {
        Some(TokenKind::Unit)
    } else if text == "static_assert"@ {
        Some(TokenKind::StaticAssert)
    } else {
        None
    }
}

/// The kind of an identifier-shaped word: its keyword, or `Identifier`.
pub open spec fn word_kind(text: Seq<char>) -> TokenKind {
    match spec_keyword(text) {
        Some(k) => k,
        None => TokenKind::Identifier,
    }
}

/// Token kinds after which a line break ends a statement.
pub open spec fn ends_statement(kind: TokenKind) -> bool {
    matches!(kind,
        TokenKind::Identifier | TokenKind::IntLiteral | TokenKind::FloatLiteral
        | TokenKind::StringLiteral | TokenKind::CharLiteral | TokenKind::True
        | TokenKind::False | TokenKind::None_ | TokenKind::End | TokenKind::Break
        | TokenKind::Continue | TokenKind::RParen | TokenKind::RBracket | TokenKind::RBrace
        | TokenKind::Question | TokenKind::SelfLower | TokenKind::SelfUpper
        | TokenKind::FatArrow)
}

/// Token kinds at which a statement or declaration can start.
pub open spec fn spec_is_statement_start(kind: TokenKind) -> bool {
    matches!(kind,
        TokenKind::Op | TokenKind::Let | TokenKind::Var | TokenKind::Const
        | TokenKind::Struct | TokenKind::Enum | TokenKind::Ability | TokenKind::Impl
        | TokenKind::Task | TokenKind::Protected | TokenKind::If | TokenKind::Match
        | TokenKind::For | TokenKind::While | TokenKind::Loop | TokenKind::Return
        | TokenKind::Break | TokenKind::Continue | TokenKind::Select | TokenKind::At
        | TokenKind::Pub)
}

/// The name under which a token kind appears in messages.
pub open spec fn kind_name(kind: TokenKind) -> Seq<char> {
    match kind {
        TokenKind::IntLiteral => "integer"@,
        TokenKind::FloatLiteral => "float"@,
        TokenKind::StringLiteral => "string"@,
        TokenKind::CharLiteral => "character"@,
        TokenKind::Identifier => "identifier"@,
        TokenKind::Op => "'op'"@,
        TokenKind::Let => "'let'"@,
        TokenKind::Var => "'var'"@,
        TokenKind::Const => "'const'"@,
        TokenKind::Struct => "'struct'"@,
        TokenKind::Enum => "'enum'"@,
        TokenKind::Ability => "'ability'"@,
        TokenKind::Impl => "'impl'"@,
        TokenKind::Task => "'task'"@,
        TokenKind::Protected => "'protected'"@,
        TokenKind::Orbit => "'orbit'"@,
        TokenKind::Dock => "'dock'"@,
        TokenKind::Body => "'body'"@,
        TokenKind::Pub => "'pub'"@,
        TokenKind::Extern => "'extern'"@,
        TokenKind::If => "'if'"@,
        TokenKind::Else => "'else'"@,
        TokenKind::Match => "'match'"@,
        TokenKind::For => "'for'"@,
        TokenKind::While => "'while'"@,
        TokenKind::Loop => "'loop'"@,
        TokenKind::Break => "'break'"@,
        TokenKind::Continue => "'continue'"@,
        TokenKind::Return => "'return'"@,
        TokenKind::Select => "'select'"@,
        TokenKind::Accept => "'accept'"@,
        TokenKind::Or => "'or'"@,
        TokenKind::Delay => "'delay'"@,
        TokenKind::When => "'when'"@,
        TokenKind::True => "'true'"@,
        TokenKind::False => "'false'"@,
        TokenKind::None_ => "'none'"@,
        TokenKind::Ok_ => "'ok'"@,
        TokenKind::Err_ => "'err'"@,
        TokenKind::Some_ => "'some'"@,
        TokenKind::SelfLower => "'self'"@,
        TokenKind::SelfUpper => "'Self'"@,
        TokenKind::Mut => "'mut'"@,
        TokenKind::Ref => "'ref'"@,
        TokenKind::Own => "'own'"@,
        TokenKind::Safe => "'safe'"@,
        TokenKind::Unsafe => "'unsafe'"@,
        TokenKind::As => "'as'"@,
        TokenKind::In => "'in'"@,
        TokenKind::End => "'end'"@,
        TokenKind::Async => "'async'"@,
        TokenKind::Unit => "'unit'"@,
        TokenKind::StaticAssert => "'static_assert'"@,
        TokenKind::Plus => "'+'"@,
        TokenKind::Minus => "'-'"@,
        TokenKind::Star => "'*'"@,
        TokenKind::Slash => "'/'"@,
        TokenKind::Percent => "'%'"@,
        TokenKind::PlusPlus => "'++'"@,
        TokenKind::Eq => "'=='"@,
        TokenKind::NotEq => "'!='"@,
        TokenKind::Lt => "'<'"@,
        TokenKind::Gt => "'>'"@,
        TokenKind::LtEq => "'<='"@,
        TokenKind::GtEq => "'>='"@,
        TokenKind::And => "'and'"@,
        TokenKind::Not => "'not'"@,
        TokenKind::Ampersand => "'&'"@,
        TokenKind::Pipe => "'|'"@,
        TokenKind::Caret => "'^'"@,
        TokenKind::Tilde => "'~'"@,
        TokenKind::ShiftLeft => "'<<'"@,
        TokenKind::ShiftRight => "'>>'"@,
        TokenKind::Pipeline => "'>>'"@,
        TokenKind::Assign => "'='"@,
        TokenKind::PlusAssign => "'+='"@,
        TokenKind::MinusAssign => "'-='"@,
        TokenKind::StarAssign => "'*='"@,
        TokenKind::SlashAssign => "'/='"@,
        TokenKind::PercentAssign => "'%='"@,
        TokenKind::LParen => "'('"@,
        TokenKind::RParen => "')'"@,
        TokenKind::LBracket => "'['"@,
        TokenKind::RBracket => "']'"@,
        TokenKind::LBrace => "'{'"@,
        TokenKind::RBrace => "'}'"@,
        TokenKind::Arrow => "'->'"@,
        TokenKind::FatArrow => "'=>'"@,
        TokenKind::Colon => "':'"@,
        TokenKind::ColonColon => "'::'"@,
        TokenKind::Comma => "','"@,
        TokenKind::Dot => "'.'"@,
        TokenKind::DotDot => "'..'"@,
        TokenKind::Question => "'?'"@,
        TokenKind::BangBang => "'!!'"@,
        TokenKind::At => "'@'"@,
        TokenKind::Semicolon => "';'"@,
        TokenKind::Newline => "newline"@,
        TokenKind::DocComment => "doc comment"@,
        TokenKind::Eof => "end of file"@,
    }
}

/// Every keyword is named in messages by its own text between quotes: the
/// kind that a word spells is named `'word'`.
pub proof fn law_keyword_named(text: Seq<char>)
    requires
        spec_keyword(text) is Some,
    ensures
        kind_name(spec_keyword(text).unwrap()) == seq!['\''] + text + seq!['\''],
{
    reveal_strlit("Self");
    reveal_strlit("'Self'");
    reveal_strlit("ability");
    reveal_strlit("'ability'");
    reveal_strlit("accept");
    reveal_strlit("'accept'");
    reveal_strlit("and");
    reveal_strlit("'and'");
    reveal_strlit("as");
    reveal_strlit("'as'");
    reveal_strlit("async");
    reveal_strlit("'async'");
    reveal_strlit("body");
    reveal_strlit("'body'");
    reveal_strlit("break");
    reveal_strlit("'break'");
    reveal_strlit("const");
    reveal_strlit("'const'");
    reveal_strlit("continue");
    reveal_strlit("'continue'");
    reveal_strlit("delay");
    reveal_strlit("'delay'");
    reveal_strlit("dock");
    reveal_strlit("'dock'");
    reveal_strlit("else");
    reveal_strlit("'else'");
    reveal_strlit("end");
    reveal_strlit("'end'");
    reveal_strlit("enum");
    reveal_strlit("'enum'");
    reveal_strlit("err");
    reveal_strlit("'err'");
    reveal_strlit("extern");
    reveal_strlit("'extern'");
    reveal_strlit("false");
    reveal_strlit("'false'");
    reveal_strlit("for");
    reveal_strlit("'for'");
    reveal_strlit("if");
    reveal_strlit("'if'");
    reveal_strlit("impl");
    reveal_strlit("'impl'");
    reveal_strlit("in");
    reveal_strlit("'in'");
    reveal_strlit("let");
    reveal_strlit("'let'");
    reveal_strlit("loop");
    reveal_strlit("'loop'");
    reveal_strlit("match");
    reveal_strlit("'match'");
    reveal_strlit("mut");
    reveal_strlit("'mut'");
    reveal_strlit("none");
    reveal_strlit("'none'");
    reveal_strlit("not");
    reveal_strlit("'not'");
    reveal_strlit("ok");
    reveal_strlit("'ok'");
    reveal_strlit("op");
    reveal_strlit("'op'");
    reveal_strlit("or");
    reveal_strlit("'or'");
    reveal_strlit("orbit");
    reveal_strlit("'orbit'");
    reveal_strlit("own");
    reveal_strlit("'own'");
    reveal_strlit("protected");
    reveal_strlit("'protected'");
    reveal_strlit("pub");
    reveal_strlit("'pub'");
    reveal_strlit("ref");
    reveal_strlit("'ref'");
    reveal_strlit("return");
    reveal_strlit("'return'");
    reveal_strlit("safe");
    reveal_strlit("'safe'");
    reveal_strlit("select");
    reveal_strlit("'select'");
    reveal_strlit("self");
    reveal_strlit("'self'");
    reveal_strlit("some");
    reveal_strlit("'some'");
    reveal_strlit("static_assert");
    reveal_strlit("'static_assert'");
    reveal_strlit("struct");
    reveal_strlit("'struct'");
    reveal_strlit("task");
    reveal_strlit("'task'");
    reveal_strlit("true");
    reveal_strlit("'true'");
    reveal_strlit("unit");
    reveal_strlit("'unit'");
    reveal_strlit("unsafe");
    reveal_strlit("'unsafe'");
    reveal_strlit("var");
    reveal_strlit("'var'");
    reveal_strlit("when");
    reveal_strlit("'when'");
    reveal_strlit("while");
    reveal_strlit("'while'");
    reveal_strlit("'");
    assert(kind_name(spec_keyword(text).unwrap()) =~= seq!['\''] + text + seq!['\'']);
}

impl TokenKind {
    /// Look up a keyword from its text, or return None if it is a plain identifier.
    pub fn keyword(text: &str) -> (k: Option<TokenKind>)
        ensures
            k == spec_keyword(text@),
    {
        if str_eq(text, "op") {
            Some(TokenKind::Op)
        } else if str_eq(text, "let") {
            Some(TokenKind::Let)
        } else if str_eq(text, "var") {
            Some(TokenKind::Var)
        } else if str_eq(text, "const") {
            Some(TokenKind::Const)
        } else if str_eq(text, "struct") {
            Some(TokenKind::Struct)
        } else if str_eq(text, "enum") {
            Some(TokenKind::Enum)
        } else if str_eq(text, "ability") {
            Some(TokenKind::Ability)
        } else if str_eq(text, "impl") {
            Some(TokenKind::Impl)
        } else if str_eq(text, "task") {
            Some(TokenKind::Task)
        } else if str_eq(text, "protected") {
            Some(TokenKind::Protected)
        } else if str_eq(text, "orbit") {
            Some(TokenKind::Orbit)
        } else if str_eq(text, "dock") {
            Some(TokenKind::Dock)
        } else if str_eq(text, "body") {
            Some(TokenKind::Body)
        } else if str_eq(text, "pub") {
            Some(TokenKind::Pub)
        } else if str_eq(text, "extern") {
            Some(TokenKind::Extern)
        } else if str_eq(text, "if") {
            Some(TokenKind::If)
        } else if str_eq(text, "else") {
            Some(TokenKind::Else)
        } else if str_eq(text, "match") {
            Some(TokenKind::Match)
        } else if str_eq(text, "for") {
            Some(TokenKind::For)
        } else if str_eq(text, "while") {
            Some(TokenKind::While)
        } else if str_eq(text, "loop") {
            Some(TokenKind::Loop)
        } else if str_eq(text, "break") {
            Some(TokenKind::Break)
        } else if str_eq(text, "continue") {
            Some(TokenKind::Continue)
        } else if str_eq(text, "return") {
            Some(TokenKind::Return)
        } else if str_eq(text, "select") {
            Some(TokenKind::Select)
        } else if str_eq(text, "accept") {
            Some(TokenKind::Accept)
        } else if str_eq(text, "or") {
            Some(TokenKind::Or)
        } else if str_eq(text, "delay") {
            Some(TokenKind::Delay)
        } else if str_eq(text, "when") {
            Some(TokenKind::When)
        } else if str_eq(text, "true") {
            Some(TokenKind::True)
        } else if str_eq(text, "false") {
            Some(TokenKind::False)
        } else if str_eq(text, "none") {
            Some(TokenKind::None_)
        } else if str_eq(text, "ok") {
            Some(TokenKind::Ok_)
        } else if str_eq(text, "err") {
            Some(TokenKind::Err_)
        } else if str_eq(text, "some") {
            Some(TokenKind::Some_)
        } else if str_eq(text, "self") {
            Some(TokenKind::SelfLower)
        } else if str_eq(text, "Self") {
            Some(TokenKind::SelfUpper)
        } else if str_eq(text, "mut") {
            Some(TokenKind::Mut)
        } else if str_eq(text, "ref") {
            Some(TokenKind::Ref)
        } else if str_eq(text, "own") {
            Some(TokenKind::Own)
        } else if str_eq(text, "safe") {
            Some(TokenKind::Safe)
        } else if str_eq(text, "unsafe") {
            Some(TokenKind::Unsafe)
        } else if str_eq(text, "as") {
            Some(TokenKind::As)
        } else if str_eq(text, "in") {
            Some(TokenKind::In)
        } else if str_eq(text, "end") {
            Some(TokenKind::End)
        } else if str_eq(text, "and") {
            Some(TokenKind::And)
        } else if str_eq(text, "not") {
            Some(TokenKind::Not)
        } else if str_eq(text, "async") {
            Some(TokenKind::Async)
        } else if str_eq(text, "unit") {
            Some(TokenKind::Unit)
        } else if str_eq(text, "static_assert") {
            Some(TokenKind::StaticAssert)
        } else {
            None
        }
    }

    /// Whether this token kind can start a statement. Used for error recovery:
    /// the parser skips tokens until it finds one of these synchronization points.
    pub fn is_statement_start(&self) -> (b: bool)
        ensures
            b == spec_is_statement_start(*self),
    {
        match self {
            TokenKind::Op | TokenKind::Let | TokenKind::Var | TokenKind::Const
            | TokenKind::Struct | TokenKind::Enum | TokenKind::Ability | TokenKind::Impl
            | TokenKind::Task | TokenKind::Protected | TokenKind::If | TokenKind::Match
            | TokenKind::For | TokenKind::While | TokenKind::Loop | TokenKind::Return
            | TokenKind::Break | TokenKind::Continue | TokenKind::Select | TokenKind::At
            | TokenKind::Pub => true,
            _ => false,
        }
    }

    /// The name under which this token kind appears in messages.
    pub fn name(&self) -> (s: &'static str)
        ensures
            s@ == kind_name(*self),
    {
        match self {
            TokenKind::IntLiteral => "integer",
            TokenKind::FloatLiteral => "float",
            TokenKind::StringLiteral => "string",
            TokenKind::CharLiteral => "character",
            TokenKind::Identifier => "identifier",
            TokenKind::Op => "'op'",
            TokenKind::Let => "'let'",
            TokenKind::Var => "'var'",
            TokenKind::Const => "'const'",
            TokenKind::Struct => "'struct'",
            TokenKind::Enum => "'enum'",
            TokenKind::Ability => "'ability'",
            TokenKind::Impl => "'impl'",
            TokenKind::Task => "'task'",
            TokenKind::Protected => "'protected'",
            TokenKind::Orbit => "'orbit'",
            TokenKind::Dock => "'dock'",
            TokenKind::Body => "'body'",
            TokenKind::Pub => "'pub'",
            TokenKind::Extern => "'extern'",
            TokenKind::If => "'if'",
            TokenKind::Else => "'else'",
            TokenKind::Match => "'match'",
            TokenKind::For => "'for'",
            TokenKind::While => "'while'",
            TokenKind::Loop => "'loop'",
            TokenKind::Break => "'break'",
            TokenKind::Continue => "'continue'",
            TokenKind::Return => "'return'",
            TokenKind::Select => "'select'",
            TokenKind::Accept => "'accept'",
            TokenKind::Or => "'or'",
            TokenKind::Delay => "'delay'",
            TokenKind::When => "'when'",
            TokenKind::True => "'true'",
            TokenKind::False => "'false'",
            TokenKind::None_ => "'none'",
            TokenKind::Ok_ => "'ok'",
            TokenKind::Err_ => "'err'",
            TokenKind::Some_ => "'some'",
            TokenKind::SelfLower => "'self'",
            TokenKind::SelfUpper => "'Self'",
            TokenKind::Mut => "'mut'",
            TokenKind::Ref => "'ref'",
            TokenKind::Own => "'own'",
            TokenKind::Safe => "'safe'",
            TokenKind::Unsafe => "'unsafe'",
            TokenKind::As => "'as'",
            TokenKind::In => "'in'",
            TokenKind::End => "'end'",
            TokenKind::Async => "'async'",
            TokenKind::Unit => "'unit'",
            TokenKind::StaticAssert => "'static_assert'",
            TokenKind::Plus => "'+'",
            TokenKind::Minus => "'-'",
            TokenKind::Star => "'*'",
            TokenKind::Slash => "'/'",
            TokenKind::Percent => "'%'",
            TokenKind::PlusPlus => "'++'",
            TokenKind::Eq => "'=='",
            TokenKind::NotEq => "'!='",
            TokenKind::Lt => "'<'",
            TokenKind::Gt => "'>'",
            TokenKind::LtEq => "'<='",
            TokenKind::GtEq => "'>='",
            TokenKind::And => "'and'",
            TokenKind::Not => "'not'",
            TokenKind::Ampersand => "'&'",
            TokenKind::Pipe => "'|'",
            TokenKind::Caret => "'^'",
            TokenKind::Tilde => "'~'",
            TokenKind::ShiftLeft => "'<<'",
            TokenKind::ShiftRight => "'>>'",
            TokenKind::Pipeline => "'>>'",
            TokenKind::Assign => "'='",
            TokenKind::PlusAssign => "'+='",
            TokenKind::MinusAssign => "'-='",
            TokenKind::StarAssign => "'*='",
            TokenKind::SlashAssign => "'/='",
            TokenKind::PercentAssign => "'%='",
            TokenKind::LParen => "'('",
            TokenKind::RParen => "')'",
            TokenKind::LBracket => "'['",
            TokenKind::RBracket => "']'",
            TokenKind::LBrace => "'{'",
            TokenKind::RBrace => "'}'",
            TokenKind::Arrow => "'->'",
            TokenKind::FatArrow => "'=>'",
            TokenKind::Colon => "':'",
            TokenKind::ColonColon => "'::'",
            TokenKind::Comma => "','",
            TokenKind::Dot => "'.'",
            TokenKind::DotDot => "'..'",
            TokenKind::Question => "'?'",
            TokenKind::BangBang => "'!!'",
            TokenKind::At => "'@'",
            TokenKind::Semicolon => "';'",
            TokenKind::Newline => "newline",
            TokenKind::DocComment => "doc comment",
            TokenKind::Eof => "end of file",
        }
    }
}

/// A single token with its kind, span, and source text.
#[derive(Debug, Clone, PartialEq)]
pub struct Token {
    pub kind: TokenKind,
    pub span: Span,
    /// The raw source text of this token.
    pub lexeme: String,
}

impl Token {
    /// A token of the given kind, span and text.
    pub fn new(kind: TokenKind, span: Span, lexeme: String) -> (t: Token)
        ensures
            t.kind == kind,
            t.span == span,
            t.lexeme == lexeme,
    {
        Token { kind, span, lexeme }
    }

    /// A token that stands for no source text, at offset 0.
    pub fn synthetic(kind: TokenKind) -> (t: Token)
        ensures
            t.kind == kind,
            t.span == Span::point_spec(0),
            t.lexeme@.len() == 0,
    {
        Token { kind, span: Span::point(0), lexeme: String::new() }
    }
}

} // verus!
