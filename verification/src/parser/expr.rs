//! Expression parsing by precedence climbing: binary and unary operators,
//! calls, method calls, field access, indexing, closures, struct literals,
//! error propagation (`?`), error conversion (`!!`), concatenation (`++`),
//! ranges and pipelines (`>>`).

use vstd::prelude::*;
use vstd::string::*;
use crate::lexer::{Token, TokenKind};
use crate::ast::{
    Expr, LiteralExpr, LiteralValue, IdentExpr, BinaryExpr, BinaryOp, UnaryExpr, UnaryOp,
    CallExpr, CallArg, MethodCallExpr, FieldAccessExpr, IndexExpr, StructLiteralExpr,
    StructFieldInit, ClosureExpr, ClosureParam, PropagateExpr, ErrorConvertExpr, RangeExpr,
    ArrayLiteralExpr, TupleLiteralExpr, PathExpr, UnsafeBlockExpr, SelfExprNode, PipelineExpr,
    ConcatExpr,
};
use crate::diagnostics::{Diagnostic, Span};
use super::state::{Parser, fails_with_error};
use super::literal::{int_literal, int_literal_value, remove_underscores, float_text_ok, unescape_string, char_literal};
use super::pattern::starts_upper;

verus! {

broadcast use vstd::string::group_string_axioms;

/// Operator precedence levels, lowest to highest.
#[derive(Debug, Clone, Copy, PartialEq, Eq, Structural)]
pub enum Precedence {
    Lowest,
    Pipeline,
    Or,
    And,
    Equality,
    Comparison,
    Concat,
    BitOr,
    BitXor,
    BitAnd,
    Shift,
    Range,
    Addition,
    Multiply,
    ErrorConvert,
    Unary,
    Postfix,
}

/// The rank of a precedence level: higher binds tighter.
pub open spec fn rank(p: Precedence) -> nat {
    match p {
        Precedence::Lowest => 0,
        Precedence::Pipeline => 1,
        Precedence::Or => 2,
        Precedence::And => 3,
        Precedence::Equality => 4,
        Precedence::Comparison => 5,
        Precedence::Concat => 6,
        Precedence::BitOr => 7,
        Precedence::BitXor => 8,
        Precedence::BitAnd => 9,
        Precedence::Shift => 10,
        Precedence::Range => 11,
        Precedence::Addition => 12,
        Precedence::Multiply => 13,
        Precedence::ErrorConvert => 14,
        Precedence::Unary => 15,
        Precedence::Postfix => 16,
    }
}

/// The precedence levels from the loosest to the tightest, in the order
/// the language defines them: nothing, pipelines, `or`, `and`, equality,
/// comparison, concatenation, `|`, `^`, `&`, shifts, ranges, addition,
/// multiplication, error conversion, prefix and then postfix operators.
pub open spec fn precedence_order() -> Seq<Precedence> {
    seq![
        Precedence::Lowest,
        Precedence::Pipeline,
        Precedence::Or,
        Precedence::And,
        Precedence::Equality,
        Precedence::Comparison,
        Precedence::Concat,
        Precedence::BitOr,
        Precedence::BitXor,
        Precedence::BitAnd,
        Precedence::Shift,
        Precedence::Range,
        Precedence::Addition,
        Precedence::Multiply,
        Precedence::ErrorConvert,
        Precedence::Unary,
        Precedence::Postfix,
    ]
}

/// Ranks follow the defined order: a level later in `precedence_order`
/// binds strictly tighter than one before it (so `and` binds tighter than
/// `or`, and `*` than `+`), and every level has its place in that order.
pub proof fn law_rank_follows_order(i: int, j: int, p: Precedence)
    requires
        0 <= i < j < precedence_order().len(),
    ensures
        rank(precedence_order()[i]) < rank(precedence_order()[j]),
        precedence_order().contains(p),
{
    let o = precedence_order();
    assert forall|k: int| 0 <= k < o.len() implies rank(#[trigger] o[k]) == k by {}
    assert(o[rank(p) as int] == p);
}

/// The infix operator tokens grouped by how tightly they bind, loosest
/// first: `>>`; `or`; `and`; `==` `!=`; `<` `>` `<=` `>=`; `++`; `|`; `^`;
/// `&`; `<<`; `..`; `+` `-`; `*` `/` `%`; `!!`; then the postfix `?`, `.`,
/// `(` and `[`.
pub open spec fn operator_groups() -> Seq<Seq<TokenKind>> {
    seq![
        seq![TokenKind::ShiftRight],
        seq![TokenKind::Or],
        seq![TokenKind::And],
        seq![TokenKind::Eq, TokenKind::NotEq],
        seq![TokenKind::Lt, TokenKind::Gt, TokenKind::LtEq, TokenKind::GtEq],
        seq![TokenKind::PlusPlus],
        seq![TokenKind::Pipe],
        seq![TokenKind::Caret],
        seq![TokenKind::Ampersand],
        seq![TokenKind::ShiftLeft],
        seq![TokenKind::DotDot],
        seq![TokenKind::Plus, TokenKind::Minus],
        seq![TokenKind::Star, TokenKind::Slash, TokenKind::Percent],
        seq![TokenKind::BangBang],
        seq![TokenKind::Question, TokenKind::Dot, TokenKind::LParen, TokenKind::LBracket],
    ]
}

/// Operators bind as their groups say: an operator of a later group binds
/// strictly tighter than one of an earlier group, operators of one group
/// bind alike, and every infix operator binds tighter than the end of an
/// expression.
pub proof fn law_operator_groups(i: int, j: int, a: int, b: int)
    requires
        0 <= i < operator_groups().len(),
        0 <= j < operator_groups().len(),
        0 <= a < operator_groups()[i].len(),
        0 <= b < operator_groups()[j].len(),
    ensures
        i < j ==> rank(infix_precedence(operator_groups()[i][a])) < rank(
            infix_precedence(operator_groups()[j][b]),
        ),
        i == j ==> rank(infix_precedence(operator_groups()[i][a])) == rank(
            infix_precedence(operator_groups()[j][b]),
        ),
        rank(infix_precedence(operator_groups()[i][a])) > 0,
{
}

impl Precedence {
    pub fn level(&self) -> (n: u8)
        ensures
            n == rank(*self),
    {
        match self {
            Precedence::Lowest => 0,
            Precedence::Pipeline => 1,
            Precedence::Or => 2,
            Precedence::And => 3,
            Precedence::Equality => 4,
            Precedence::Comparison => 5,
            Precedence::Concat => 6,
            Precedence::BitOr => 7,
            Precedence::BitXor => 8,
            Precedence::BitAnd => 9,
            Precedence::Shift => 10,
            Precedence::Range => 11,
            Precedence::Addition => 12,
            Precedence::Multiply => 13,
            Precedence::ErrorConvert => 14,
            Precedence::Unary => 15,
            Precedence::Postfix => 16,
        }
    }
}

/// The precedence of a token kind used as an infix or postfix operator;
/// `None` for a token that is no such operator. `>>` is the pipeline.
pub open spec fn infix_precedence(k: TokenKind) -> Precedence {
    match k {
        TokenKind::ShiftRight => Precedence::Pipeline,
        TokenKind::Or => Precedence::Or,
        TokenKind::And => Precedence::And,
        TokenKind::Eq | TokenKind::NotEq => Precedence::Equality,
        TokenKind::Lt | TokenKind::Gt | TokenKind::LtEq | TokenKind::GtEq => Precedence::Comparison,
        TokenKind::PlusPlus => Precedence::Concat,
        TokenKind::Pipe => Precedence::BitOr,
        TokenKind::Caret => Precedence::BitXor,
        TokenKind::Ampersand => Precedence::BitAnd,
        TokenKind::ShiftLeft => Precedence::Shift,
        TokenKind::DotDot => Precedence::Range,
        TokenKind::Plus | TokenKind::Minus => Precedence::Addition,
        TokenKind::Star | TokenKind::Slash | TokenKind::Percent => Precedence::Multiply,
        TokenKind::BangBang => Precedence::ErrorConvert,
        TokenKind::Question | TokenKind::Dot | TokenKind::LParen | TokenKind::LBracket => {
            Precedence::Postfix
        },
        _ => Precedence::Lowest,
    }
}

/// The binary operator a token kind stands for, if any.
pub open spec fn binary_op_of(k: TokenKind) -> Option<BinaryOp> {
    match k {
        TokenKind::Plus => Some(BinaryOp::Add),
        TokenKind::Minus => Some(BinaryOp::Sub),
        TokenKind::Star => Some(BinaryOp::Mul),
        TokenKind::Slash => Some(BinaryOp::Div),
        TokenKind::Percent => Some(BinaryOp::Mod),
        TokenKind::Eq => Some(BinaryOp::Eq),
        TokenKind::NotEq => Some(BinaryOp::NotEq),
        TokenKind::Lt => Some(BinaryOp::Lt),
        TokenKind::Gt => Some(BinaryOp::Gt),
        TokenKind::LtEq => Some(BinaryOp::LtEq),
        TokenKind::GtEq => Some(BinaryOp::GtEq),
        TokenKind::And => Some(BinaryOp::And),
        TokenKind::Or => Some(BinaryOp::Or),
        TokenKind::Ampersand => Some(BinaryOp::BitAnd),
        TokenKind::Pipe => Some(BinaryOp::BitOr),
        TokenKind::Caret => Some(BinaryOp::BitXor),
        TokenKind::ShiftLeft => Some(BinaryOp::ShiftLeft),
        TokenKind::ShiftRight => Some(BinaryOp::ShiftRight),
        _ => None,
    }
}

/// The prefix operator a token kind stands for, if any.
pub open spec fn unary_op_of(k: TokenKind) -> Option<UnaryOp> {
    match k {
        TokenKind::Minus => Some(UnaryOp::Neg),
        TokenKind::Not => Some(UnaryOp::Not),
        TokenKind::Tilde => Some(UnaryOp::BitNot),
        _ => None,
    }
}

/// Whether a token kind belongs to the operator sublanguage: integer
/// literals, names, prefix operators, and binary operators other than `>>`
/// (which is the pipeline) and `|` (which also opens a closure).
pub open spec fn op_token(k: TokenKind) -> bool {
    ||| k == TokenKind::IntLiteral
    ||| k == TokenKind::Identifier
    ||| unary_op_of(k) is Some
    ||| (binary_op_of(k) is Some && k != TokenKind::ShiftRight && k != TokenKind::Pipe)
}

/// Whether the tokens from `lo` up to `hi` all belong to the operator
/// sublanguage.
pub open spec fn op_tokens(toks: Seq<Token>, lo: int, hi: int) -> bool {
    forall|i: int| lo <= i < hi ==> op_token(#[trigger] toks[i].kind)
}

/// The precedence of a binary operator.
pub open spec fn op_precedence(op: BinaryOp) -> Precedence {
    match op {
        BinaryOp::Add | BinaryOp::Sub => Precedence::Addition,
        BinaryOp::Mul | BinaryOp::Div | BinaryOp::Mod => Precedence::Multiply,
        BinaryOp::Eq | BinaryOp::NotEq => Precedence::Equality,
        BinaryOp::Lt | BinaryOp::Gt | BinaryOp::LtEq | BinaryOp::GtEq => Precedence::Comparison,
        BinaryOp::And => Precedence::And,
        BinaryOp::Or => Precedence::Or,
        BinaryOp::BitAnd => Precedence::BitAnd,
        BinaryOp::BitOr => Precedence::BitOr,
        BinaryOp::BitXor => Precedence::BitXor,
        BinaryOp::ShiftLeft => Precedence::Shift,
        BinaryOp::ShiftRight => Precedence::Pipeline,
    }
}

/// Position `p` of `toks` holds an operand made of one token: an integer
/// literal with a value, or a name that no `.`, `(`, `[` or `{` follows.
pub open spec fn lone_operand(toks: Seq<Token>, p: int) -> bool {
    ||| toks[p].kind == TokenKind::IntLiteral && int_literal_value(toks[p].lexeme@) is Some
    ||| toks[p].kind == TokenKind::Identifier && toks[p + 1].kind != TokenKind::Dot && toks[p + 1].kind
        != TokenKind::LBrace
}

/// How tightly the top of `e` binds: a binary expression by its operator's
/// precedence, a prefix operation as a unary one, anything else tighter
/// than every operator.
pub open spec fn binding(e: Expr) -> nat {
    match e {
        Expr::Binary(b) => rank(op_precedence(b.op)),
        Expr::Unary(_) => rank(Precedence::Unary),
        _ => rank(Precedence::Postfix) + 1,
    }
}

/// `e` is what the tokens `toks` write in the operator sublanguage: an
/// integer literal or a name alone, a prefix operator before an operand
/// that binds at least as tightly, or a binary operator between a left
/// operand that binds at least as tightly as it and a right operand that
/// binds more tightly -- so that higher precedence groups first and equal
/// precedence groups to the left.
pub open spec fn writes(e: Expr, toks: Seq<Token>) -> bool
    decreases e,
{
    match e {
        Expr::Literal(l) => {
            &&& toks.len() == 1
            &&& toks[0].kind == TokenKind::IntLiteral
            &&& int_literal_value(toks[0].lexeme@) matches Some(v)
            &&& l.value == LiteralValue::Int(v)
        },
        Expr::Identifier(id) => {
            &&& toks.len() == 1
            &&& toks[0].kind == TokenKind::Identifier
            &&& id.name@ == toks[0].lexeme@
        },
        Expr::Unary(u) => {
            &&& toks.len() >= 2
            &&& unary_op_of(toks[0].kind) == Some(u.op)
            &&& binding(*u.operand) >= rank(Precedence::Unary)
            &&& writes(*u.operand, toks.drop_first())
        },
        Expr::Binary(b) => {
            &&& b.op != BinaryOp::ShiftRight
            &&& binding(*b.left) >= rank(op_precedence(b.op))
            &&& binding(*b.right) > rank(op_precedence(b.op))
            &&& exists|k: int|
                0 < k < toks.len() - 1 && binary_op_of(#[trigger] toks[k].kind) == Some(b.op) && writes(
                    *b.left,
                    toks.subrange(0, k),
                ) && writes(*b.right, toks.subrange(k + 1, toks.len() as int))
        },
        _ => false,
    }
}

/// What the tokens of the operator sublanguage write is never empty.
proof fn lemma_writes_nonempty(e: Expr, toks: Seq<Token>)
    requires
        writes(e, toks),
    ensures
        toks.len() >= 1,
{
}

/// A run of operator-sublanguage tokens splits into two such runs.
proof fn lemma_op_tokens_split(toks: Seq<Token>, lo: int, mid: int, hi: int)
    requires
        lo <= mid <= hi,
        op_tokens(toks, lo, hi),
    ensures
        op_tokens(toks, lo, mid),
        op_tokens(toks, mid, hi),
{
}

/// A binary operator token other than `>>` has its operator's precedence,
/// which is below that of prefix operators.
proof fn lemma_binary_precedence(k: TokenKind)
    requires
        binary_op_of(k) is Some,
        k != TokenKind::ShiftRight,
    ensures
        op_precedence(binary_op_of(k)->0) == infix_precedence(k),
        rank(infix_precedence(k)) < rank(Precedence::Unary),
        rank(infix_precedence(k)) > 0,
{
}

/// From `p` on the tokens are operands of one token each (see
/// `lone_operand`) joined by binary operators other than `>>`, and `q` is
/// the first token after them, one that continues no expression.
pub open spec fn flat_chain(toks: Seq<Token>, p: int, q: int) -> bool
    decreases q - p,
{
    if p + 1 < q {
        &&& lone_operand(toks, p)
        &&& binary_op_of(toks[p + 1].kind) is Some
        &&& toks[p + 1].kind != TokenKind::ShiftRight
        &&& flat_chain(toks, p + 2, q)
    } else {
        &&& q == p + 1
        &&& lone_operand(toks, p)
        &&& infix_precedence(toks[q].kind) == Precedence::Lowest
    }
}

/// A chain of operands has one end.
proof fn lemma_chain_end_unique(toks: Seq<Token>, p: int, q1: int, q2: int)
    requires
        flat_chain(toks, p, q1),
        flat_chain(toks, p, q2),
    ensures
        q1 == q2,
    decreases q1 - p,
{
    if p + 1 < q1 && p + 1 < q2 {
        lemma_chain_end_unique(toks, p + 2, q1, q2);
    } else if p + 1 < q1 || p + 1 < q2 {
        lemma_binary_precedence(toks[p + 1].kind);
    }
}

/// Inside a chain, the token after an operand continues the expression
/// unless it is the chain's end.
proof fn lemma_chain_stop(toks: Seq<Token>, k: int, q: int)
    requires
        flat_chain(toks, k - 1, q),
        rank(infix_precedence(toks[k].kind)) == 0,
    ensures
        k == q,
{
    if k < q {
        lemma_binary_precedence(toks[k].kind);
    }
}

impl Parser {
    /// Parse an expression at the lowest precedence.
    pub(crate) fn parse_expr(&mut self) -> (r: Result<Expr, Diagnostic>)
        requires
            old(self).wf(),
        ensures
            final(self).moved_on(old(self)),
            fails_with_error(r),
            r is Ok ==> infix_precedence(final(self).cur().kind) == Precedence::Lowest,
            r is Ok && op_tokens(old(self).toks(), old(self).at() as int, final(self).at() as int) ==> writes(
                r->Ok_0,
                old(self).toks().subrange(old(self).at() as int, final(self).at() as int),
            ),
            forall|q: int|
                #[trigger] flat_chain(old(self).toks(), old(self).at() as int, q) ==> r is Ok && final(self).at()
                    == q,
        decreases old(self).toks().len() - old(self).at(), 30int,
    {
        let r = self.parse_precedence(Precedence::Lowest);
        proof {
            assert forall|q: int| #[trigger] flat_chain(old(self).toks(), old(self).at() as int, q) implies r is Ok
                && self.at() == q by {
                lemma_chain_stop(old(self).toks(), self.at() as int, q);
            }
        }
        r
    }

    /// Parse an expression whose operators all bind tighter than `min_prec`.
    fn parse_precedence(&mut self, min_prec: Precedence) -> (r: Result<Expr, Diagnostic>)
        requires
            old(self).wf(),
        ensures
            final(self).moved_on(old(self)),
            fails_with_error(r),
            r is Ok ==> rank(infix_precedence(final(self).cur().kind)) <= rank(min_prec),
            r is Ok && op_tokens(old(self).toks(), old(self).at() as int, final(self).at() as int) ==> {
                &&& writes(r->Ok_0, old(self).toks().subrange(old(self).at() as int, final(self).at() as int))
                &&& (binding(r->Ok_0) >= rank(Precedence::Unary) || binding(r->Ok_0) > rank(min_prec))
            },
            lone_operand(old(self).toks(), old(self).at() as int) && rank(
                infix_precedence(old(self).toks()[old(self).at() + 1].kind),
            ) <= rank(min_prec) ==> r is Ok && final(self).at() == old(self).at() + 1,
            forall|q: int|
                #[trigger] flat_chain(old(self).toks(), old(self).at() as int, q) ==> r is Ok && final(self).at()
                    > old(self).at() && flat_chain(old(self).toks(), final(self).at() - 1, q),
        decreases old(self).toks().len() - old(self).at(), 29int,
    {
        let ghost lone = lone_operand(old(self).toks(), old(self).at() as int) && rank(
            infix_precedence(old(self).toks()[old(self).at() + 1].kind),
        ) <= rank(min_prec);
        let ghost chained = exists|q: int| flat_chain(old(self).toks(), old(self).at() as int, q);
        let ghost q0: int = choose|q: int| flat_chain(old(self).toks(), old(self).at() as int, q);
        proof {
            if chained {
                let toks = old(self).toks();
                let p = old(self).at() as int;
                if p + 1 < q0 {
                    assert(lone_operand(toks, p));
                    lemma_binary_precedence(toks[p + 1].kind);
                }
            }
        }
        let mut left = self.parse_prefix()?;
        loop
            invariant
                chained == exists|q: int| flat_chain(old(self).toks(), old(self).at() as int, q),
                chained ==> flat_chain(old(self).toks(), old(self).at() as int, q0) && self.at() > old(self).at()
                    && flat_chain(old(self).toks(), self.at() - 1, q0),
                lone == (lone_operand(old(self).toks(), old(self).at() as int) && rank(
                    infix_precedence(old(self).toks()[old(self).at() + 1].kind),
                ) <= rank(min_prec)),
                lone ==> self.at() == old(self).at() + 1,
                self.moved_on(old(self)),
                op_tokens(old(self).toks(), old(self).at() as int, self.at() as int) ==> {
                    &&& writes(left, old(self).toks().subrange(old(self).at() as int, self.at() as int))
                    &&& (binding(left) >= rank(Precedence::Unary) || binding(left) > rank(min_prec))
                    &&& rank(infix_precedence(self.cur().kind)) <= binding(left)
                },
            ensures
                rank(infix_precedence(self.cur().kind)) <= rank(min_prec),
            decreases self.toks().len() - self.at(),
        {
            let prec = self.current_infix_precedence();
            if prec.level() <= min_prec.level() {
                break;
            }
            let ghost mid = self.at();
            let ghost left0 = left;
            proof {
                if chained {
                    assert(mid < q0);
                    assert(binary_op_of(self.cur().kind) is Some);
                    assert(self.cur().kind != TokenKind::ShiftRight);
                    assert(flat_chain(self.toks(), self.at() + 1, q0));
                }
            }
            let step = self.parse_infix(left, prec);
            proof {
                if chained {
                    assert(step is Ok);
                }
                if step is Err {
                    assert forall|q: int| #[trigger] flat_chain(old(self).toks(), old(self).at() as int, q) implies false by {
                        assert(chained);
                    }
                }
            }
            left = step?;
            proof {
                let toks = old(self).toks();
                let lo = old(self).at() as int;
                let hi = self.at() as int;
                if op_tokens(toks, lo, hi) {
                    lemma_op_tokens_split(toks, lo, mid as int, hi);
                    lemma_writes_nonempty(left0, toks.subrange(lo, mid as int));
                    let b = left->Binary_0;
                    lemma_writes_nonempty(*b.right, toks.subrange(mid + 1, hi));
                    lemma_binary_precedence(toks[mid as int].kind);
                    let whole = toks.subrange(lo, hi);
                    let k = mid - lo;
                    assert(whole.subrange(0, k) =~= toks.subrange(lo, mid as int));
                    assert(whole.subrange(k + 1, whole.len() as int) =~= toks.subrange(mid + 1, hi));
                    assert(binary_op_of(whole[k].kind) == Some(b.op));
                }
            }
        }
        proof {
            if chained {
                assert forall|q: int| #[trigger] flat_chain(old(self).toks(), old(self).at() as int, q) implies self.at()
                    > old(self).at() && flat_chain(old(self).toks(), self.at() - 1, q) by {
                    lemma_chain_end_unique(old(self).toks(), old(self).at() as int, q0, q);
                }
            }
        }
        Ok(left)
    }

    /// Parse a prefix expression: a literal, a name, a unary operator, a
    /// grouping, and the like.
    fn parse_prefix(&mut self) -> (r: Result<Expr, Diagnostic>)
        requires
            old(self).wf(),
        ensures
            final(self).moved_on(old(self)),
            fails_with_error(r),
            r is Ok && op_tokens(old(self).toks(), old(self).at() as int, final(self).at() as int) ==> {
                &&& writes(r->Ok_0, old(self).toks().subrange(old(self).at() as int, final(self).at() as int))
                &&& binding(r->Ok_0) >= rank(Precedence::Unary)
                &&& rank(infix_precedence(final(self).cur().kind)) <= binding(r->Ok_0)
            },
            lone_operand(old(self).toks(), old(self).at() as int) ==> r is Ok && final(self).at() == old(self).at()
                + 1,
        decreases old(self).toks().len() - old(self).at(), 28int,
    {
        let kind = self.current_kind();
        let r = match kind {
            TokenKind::IntLiteral => self.parse_int_literal(),
            TokenKind::FloatLiteral => self.parse_float_literal(),
            TokenKind::StringLiteral => {
                let span = self.current_span();
                let raw = self.current().lexeme.clone();
                self.advance();
                let n = raw.as_str().unicode_len();
                let inner = raw.as_str().substring_char(1, n - 1);
                let value = unescape_string(inner);
                Ok(Expr::Literal(LiteralExpr { value: LiteralValue::String(value), span }))
            },
            TokenKind::CharLiteral => {
                let span = self.current_span();
                let raw = self.current().lexeme.clone();
                self.advance();
                let n = raw.as_str().unicode_len();
                let inner = raw.as_str().substring_char(1, n - 1);
                let ch = char_literal(inner);
                Ok(Expr::Literal(LiteralExpr { value: LiteralValue::Char(ch), span }))
            },
            TokenKind::True | TokenKind::False => {
                let span = self.current_span();
                self.advance();
                Ok(
                    Expr::Literal(
                        LiteralExpr { value: LiteralValue::Bool(kind == TokenKind::True), span },
                    ),
                )
            },
            TokenKind::None_ => {
                let span = self.current_span();
                self.advance();
                Ok(Expr::Literal(LiteralExpr { value: LiteralValue::None_, span }))
            },
            TokenKind::Ok_ => self.parse_wrapped("ok"),
            TokenKind::Err_ => self.parse_wrapped("err"),
            TokenKind::Some_ => self.parse_wrapped("some"),
            TokenKind::Identifier => self.parse_ident_or_path(),
            TokenKind::SelfLower => {
                let span = self.current_span();
                self.advance();
                Ok(Expr::SelfExpr(SelfExprNode { span }))
            },
            TokenKind::Minus | TokenKind::Not | TokenKind::Tilde => {
                let start = self.current_span();
                self.advance();
                let ghost mid = self.at();
                let operand = self.parse_precedence(Precedence::Unary)?;
                let end = operand.span();
                let op = if kind == TokenKind::Minus {
                    UnaryOp::Neg
                } else if kind == TokenKind::Not {
                    UnaryOp::Not
                } else {
                    UnaryOp::BitNot
                };
                let ghost inner = operand;
                proof {
                    let toks = old(self).toks();
                    let lo = old(self).at() as int;
                    let hi = self.at() as int;
                    if op_tokens(toks, lo, hi) {
                        lemma_op_tokens_split(toks, lo, mid as int, hi);
                        lemma_writes_nonempty(inner, toks.subrange(mid as int, hi));
                        assert(toks.subrange(lo, hi).drop_first() =~= toks.subrange(mid as int, hi));
                    }
                }
                Ok(Expr::Unary(UnaryExpr { op, operand: Box::new(operand), span: start.merge(end) }))
            },
            TokenKind::LParen => self.parse_paren_or_tuple(),
            TokenKind::LBracket => self.parse_array_literal(),
            TokenKind::Unsafe => {
                let start = self.current_span();
                self.expect(TokenKind::Unsafe);
                self.expect(TokenKind::FatArrow);
                let body = self.parse_block_body(start)?;
                Ok(Expr::UnsafeBlock(UnsafeBlockExpr { body, span: start.merge(self.previous_span()) }))
            },
            TokenKind::Pipe => self.parse_closure(),
            _ => {
                let mut m = String::from_str("expected expression, found ");
                m.append(kind.name());
                Err(self.error(m))
            },
        };
        proof {
            if r is Ok && op_tokens(old(self).toks(), old(self).at() as int, self.at() as int) {
                assert(op_token(old(self).toks()[old(self).at() as int].kind));
            }
        }
        r
    }

    /// The precedence of the current token as an infix or postfix operator.
    fn current_infix_precedence(&self) -> (p: Precedence)
        requires
            self.wf(),
        ensures
            p == infix_precedence(self.cur().kind),
    {
        match self.current_kind() {
            TokenKind::ShiftRight => Precedence::Pipeline,
            TokenKind::Or => Precedence::Or,
            TokenKind::And => Precedence::And,
            TokenKind::Eq | TokenKind::NotEq => Precedence::Equality,
            TokenKind::Lt | TokenKind::Gt | TokenKind::LtEq | TokenKind::GtEq => {
                Precedence::Comparison
            },
            TokenKind::PlusPlus => Precedence::Concat,
            TokenKind::Pipe => Precedence::BitOr,
            TokenKind::Caret => Precedence::BitXor,
            TokenKind::Ampersand => Precedence::BitAnd,
            TokenKind::ShiftLeft => Precedence::Shift,
            TokenKind::DotDot => Precedence::Range,
            TokenKind::Plus | TokenKind::Minus => Precedence::Addition,
            TokenKind::Star | TokenKind::Slash | TokenKind::Percent => Precedence::Multiply,
            TokenKind::BangBang => Precedence::ErrorConvert,
            TokenKind::Question | TokenKind::Dot | TokenKind::LParen | TokenKind::LBracket => {
                Precedence::Postfix
            },
            _ => Precedence::Lowest,
        }
    }

    /// Parse the infix or postfix operator at the current token, whose
    /// precedence is `prec`, applied to `left`.
    fn parse_infix(&mut self, left: Expr, prec: Precedence) -> (r: Result<Expr, Diagnostic>)
        requires
            old(self).wf(),
            prec == infix_precedence(old(self).cur().kind),
            prec != Precedence::Lowest,
        ensures
            final(self).moved_on(old(self)),
            final(self).at() > old(self).at(),
            fails_with_error(r),
            r is Ok && op_tokens(old(self).toks(), old(self).at() as int, final(self).at() as int) ==> {
                &&& r->Ok_0 matches Expr::Binary(b)
                &&& *b.left == left
                &&& b.op != BinaryOp::ShiftRight
                &&& binary_op_of(old(self).cur().kind) == Some(b.op)
                &&& binding(*b.right) > rank(prec)
                &&& writes(*b.right, old(self).toks().subrange(old(self).at() + 1, final(self).at() as int))
                &&& rank(infix_precedence(final(self).cur().kind)) <= rank(prec)
            },
            binary_op_of(old(self).cur().kind) is Some && old(self).cur().kind != TokenKind::ShiftRight && lone_operand(
                old(self).toks(),
                old(self).at() + 1,
            ) && rank(infix_precedence(old(self).toks()[old(self).at() + 2].kind)) <= rank(prec) ==> r is Ok
                && final(self).at() == old(self).at() + 2,
            forall|q: int|
                #[trigger] flat_chain(old(self).toks(), old(self).at() + 1, q) ==> (binary_op_of(old(self).cur().kind)
                    is Some && old(self).cur().kind != TokenKind::ShiftRight ==> r is Ok && final(self).at()
                    > old(self).at() + 1 && flat_chain(old(self).toks(), final(self).at() - 1, q)),
        decreases old(self).toks().len() - old(self).at(), 0int,
    {
        let kind = self.current_kind();
        let start = left.span();
        match kind {
            // error propagation
            TokenKind::Question => {
                self.advance();
                Ok(Expr::Propagate(PropagateExpr { inner: Box::new(left), span: start.merge(self.previous_span()) }))
            },
            // field access and method call
            TokenKind::Dot => {
                self.advance();
                let field_name = self.expect_identifier("field or method name");
                if self.check(TokenKind::LParen) {
                    self.advance();
                    let args = self.parse_call_args()?;
                    self.expect(TokenKind::RParen);
                    let end = self.previous_span();
                    Ok(
                        Expr::MethodCall(
                            MethodCallExpr {
                                receiver: Box::new(left),
                                method: field_name,
                                args,
                                span: start.merge(end),
                            },
                        ),
                    )
                } else {
                    Ok(
                        Expr::FieldAccess(
                            FieldAccessExpr {
                                object: Box::new(left),
                                field: field_name,
                                span: start.merge(self.previous_span()),
                            },
                        ),
                    )
                }
            },
            // function call
            TokenKind::LParen => {
                self.advance();
                let args = self.parse_call_args()?;
                self.expect(TokenKind::RParen);
                let end = self.previous_span();
                Ok(Expr::Call(CallExpr { callee: Box::new(left), args, span: start.merge(end) }))
            },
            // indexing
            TokenKind::LBracket => {
                self.advance();
                let index = self.parse_expr()?;
                self.expect(TokenKind::RBracket);
                let end = self.previous_span();
                Ok(
                    Expr::Index(
                        IndexExpr { object: Box::new(left), index: Box::new(index), span: start.merge(end) },
                    ),
                )
            },
            // error conversion: !!
            TokenKind::BangBang => {
                self.advance();
                let fallback = self.parse_precedence(prec)?;
                let end = fallback.span();
                Ok(
                    Expr::ErrorConvert(
                        ErrorConvertExpr {
                            inner: Box::new(left),
                            fallback: Box::new(fallback),
                            span: start.merge(end),
                        },
                    ),
                )
            },
            // text concatenation: ++
            TokenKind::PlusPlus => {
                self.advance();
                let right = self.parse_precedence(prec)?;
                let end = right.span();
                Ok(
                    Expr::Concat(
                        ConcatExpr { left: Box::new(left), right: Box::new(right), span: start.merge(end) },
                    ),
                )
            },
            // pipeline: >>
            TokenKind::ShiftRight => {
                self.advance();
                let right = self.parse_precedence(prec)?;
                let end = right.span();
                Ok(
                    Expr::Pipeline(
                        PipelineExpr { left: Box::new(left), right: Box::new(right), span: start.merge(end) },
                    ),
                )
            },
            // range: ..
            TokenKind::DotDot => {
                self.advance();
                let right = self.parse_precedence(prec)?;
                let end = right.span();
                Ok(
                    Expr::Range(
                        RangeExpr {
                            start: Box::new(left),
                            end: Box::new(right),
                            inclusive: false,
                            span: start.merge(end),
                        },
                    ),
                )
            },
            // binary operators
            _ => {
                let op = self.parse_binary_op()?;
                let right = self.parse_precedence(prec)?;
                let span = left.span().merge(right.span());
                Ok(Expr::Binary(BinaryExpr { left: Box::new(left), op, right: Box::new(right), span }))
            },
        }
    }

    /// Move past a binary operator and give it, or fail where none stands.
    fn parse_binary_op(&mut self) -> (r: Result<BinaryOp, Diagnostic>)
        requires
            old(self).wf(),
        ensures
            final(self).moved_on(old(self)),
            fails_with_error(r),
            match binary_op_of(old(self).cur().kind) {
                Some(op) => r == Ok::<BinaryOp, Diagnostic>(op) && final(self).at() == old(self).at() + 1,
                None => r is Err && final(self).at() == old(self).at(),
            },
    {
        let op = match self.current_kind() {
            TokenKind::Plus => BinaryOp::Add,
            TokenKind::Minus => BinaryOp::Sub,
            TokenKind::Star => BinaryOp::Mul,
            TokenKind::Slash => BinaryOp::Div,
            TokenKind::Percent => BinaryOp::Mod,
            TokenKind::Eq => BinaryOp::Eq,
            TokenKind::NotEq => BinaryOp::NotEq,
            TokenKind::Lt => BinaryOp::Lt,
            TokenKind::Gt => BinaryOp::Gt,
            TokenKind::LtEq => BinaryOp::LtEq,
            TokenKind::GtEq => BinaryOp::GtEq,
            TokenKind::And => BinaryOp::And,
            TokenKind::Or => BinaryOp::Or,
            TokenKind::Ampersand => BinaryOp::BitAnd,
            TokenKind::Pipe => BinaryOp::BitOr,
            TokenKind::Caret => BinaryOp::BitXor,
            TokenKind::ShiftLeft => BinaryOp::ShiftLeft,
            TokenKind::ShiftRight => BinaryOp::ShiftRight,
            _ => {
                let mut m = String::from_str("expected operator, found ");
                m.append(self.current_kind().name());
                return Err(self.error(m));
            },
        };
        self.advance();
        Ok(op)
    }

    // -- Specific expression forms --

    fn parse_int_literal(&mut self) -> (r: Result<Expr, Diagnostic>)
        requires
            old(self).wf(),
            old(self).cur().kind == TokenKind::IntLiteral,
        ensures
            final(self).moved_on(old(self)),
            fails_with_error(r),
            r is Ok ==> {
                &&& final(self).at() == old(self).at() + 1
                &&& writes(r->Ok_0, old(self).toks().subrange(old(self).at() as int, old(self).at() + 1))
            },
            int_literal_value(old(self).cur().lexeme@) is Some ==> r is Ok,
    {
        let span = self.current_span();
        let text = self.current().lexeme.clone();
        self.advance();
        match int_literal(text.as_str()) {
            Some(v) => Ok(Expr::Literal(LiteralExpr { value: LiteralValue::Int(v), span })),
            None => {
                let mut m = String::from_str("invalid integer literal: ");
                m.append(text.as_str());
                Err(Diagnostic::error(m).with_span(span))
            },
        }
    }

    fn parse_float_literal(&mut self) -> (r: Result<Expr, Diagnostic>)
        requires
            old(self).wf(),
            old(self).cur().kind == TokenKind::FloatLiteral,
        ensures
            final(self).moved_on(old(self)),
            fails_with_error(r),
            final(self).at() == old(self).at() + 1,
    {
        let span = self.current_span();
        let text = self.current().lexeme.clone();
        self.advance();
        let cleaned = remove_underscores(text.as_str());
        if float_text_ok(cleaned.as_str()) {
            Ok(Expr::Literal(LiteralExpr { value: LiteralValue::Float(cleaned), span }))
        } else {
            let mut m = String::from_str("invalid float literal: ");
            m.append(text.as_str());
            Err(Diagnostic::error(m).with_span(span))
        }
    }

    /// `ok(x)`, `err(x)` or `some(x)`: a call of the constructor `name`.
    fn parse_wrapped(&mut self, name: &str) -> (r: Result<Expr, Diagnostic>)
        requires
            old(self).wf(),
            old(self).cur().kind != TokenKind::Eof,
        ensures
            final(self).moved_on(old(self)),
            fails_with_error(r),
            final(self).at() > old(self).at(),
        decreases old(self).toks().len() - old(self).at(), 0int,
    {
        let start = self.current_span();
        self.advance();
        self.expect(TokenKind::LParen);
        let inner = self.parse_expr()?;
        self.expect(TokenKind::RParen);
        let end = self.previous_span();
        let callee = Expr::Identifier(IdentExpr { name: String::from_str(name), span: start });
        let arg = CallArg { name: None, value: inner, span: start.merge(end) };
        Ok(Expr::Call(CallExpr { callee: Box::new(callee), args: vec![arg], span: start.merge(end) }))
    }

    fn parse_ident_or_path(&mut self) -> (r: Result<Expr, Diagnostic>)
        requires
            old(self).wf(),
            old(self).cur().kind == TokenKind::Identifier,
        ensures
            final(self).moved_on(old(self)),
            fails_with_error(r),
            r is Ok && op_tokens(old(self).toks(), old(self).at() as int, final(self).at() as int) ==> {
                &&& r->Ok_0 is Identifier
                &&& writes(r->Ok_0, old(self).toks().subrange(old(self).at() as int, final(self).at() as int))
            },
            lone_operand(old(self).toks(), old(self).at() as int) ==> r is Ok && final(self).at() == old(self).at()
                + 1,
        decreases old(self).toks().len() - old(self).at(), 0int,
    {
        let start = self.current_span();
        let name = self.expect_identifier("expression");
        // Type.Variant: both names start with a capital
        if self.check(TokenKind::Dot) && self.peek_ahead(1) == TokenKind::Identifier {
            let next_upper = starts_upper(self.token_at(self.position() + 1).lexeme.as_str());
            if starts_upper(name.as_str()) && next_upper {
                let mut segments = vec![name];
                let ghost dot_at = old(self).at() + 1;
                loop
                    invariant
                        self.moved_on(old(self)),
                        self.at() > old(self).at(),
                        dot_at == old(self).at() + 1,
                        dot_at + 1 < self.toks().len(),
                        self.toks()[dot_at].kind == TokenKind::Dot,
                        self.toks()[dot_at + 1].kind == TokenKind::Identifier,
                        self.at() == dot_at || self.at() > dot_at + 1,
                    ensures
                        self.at() > dot_at + 1,
                    decreases self.toks().len() - self.at(),
                {
                    let before = self.position();
                    if !self.match_token(TokenKind::Dot) {
                        break;
                    }
                    if self.check(TokenKind::Identifier) {
                        segments.push(self.expect_identifier("path segment"));
                    } else {
                        // give the dot back
                        self.rewind(before);
                        break;
                    }
                }
                let end = self.previous_span();
                assert(!op_token(old(self).toks()[dot_at].kind));
                return Ok(Expr::Path(PathExpr { segments, span: start.merge(end) }));
            }
        }
        // a struct literal: Name { field: value, ... }
        if self.check(TokenKind::LBrace) && starts_upper(name.as_str()) {
            let ghost brace_at = self.at();
            let r = self.parse_struct_literal(name, start);
            assert(!op_token(old(self).toks()[brace_at as int].kind));
            return r;
        }
        Ok(Expr::Identifier(IdentExpr { name, span: start }))
    }

    fn parse_struct_literal(&mut self, name: String, start: Span) -> (r: Result<Expr, Diagnostic>)
        requires
            old(self).wf(),
            old(self).cur().kind == TokenKind::LBrace,
        ensures
            final(self).moved_on(old(self)),
            fails_with_error(r),
            final(self).at() > old(self).at(),
        decreases old(self).toks().len() - old(self).at(), 0int,
    {
        self.expect(TokenKind::LBrace);
        self.skip_newlines();
        let mut fields = Vec::new();
        while !self.check(TokenKind::RBrace) && !self.at_end()
            invariant
                self.moved_on(old(self)),
                self.at() > old(self).at(),
            decreases self.toks().len() - self.at(),
        {
            let before = self.position();
            self.skip_newlines();
            if self.check(TokenKind::RBrace) {
                break;
            }
            let f_start = self.current_span();
            let f_name = self.expect_identifier("field name");
            self.expect(TokenKind::Colon);
            let f_value = self.parse_expr()?;
            let f_end = self.previous_span();
            fields.push(StructFieldInit { name: f_name, value: f_value, span: f_start.merge(f_end) });
            if !self.match_token(TokenKind::Comma) {
                self.skip_newlines();
            }
            self.skip_newlines();
            if self.position() == before {
                break;
            }
        }
        self.expect(TokenKind::RBrace);
        let end = self.previous_span();
        Ok(Expr::StructLiteral(StructLiteralExpr { name, fields, span: start.merge(end) }))
    }

    fn parse_paren_or_tuple(&mut self) -> (r: Result<Expr, Diagnostic>)
        requires
            old(self).wf(),
            old(self).cur().kind == TokenKind::LParen,
        ensures
            final(self).moved_on(old(self)),
            fails_with_error(r),
            final(self).at() > old(self).at(),
        decreases old(self).toks().len() - old(self).at(), 0int,
    {
        let start = self.current_span();
        self.advance();
        if self.check(TokenKind::RParen) {
            self.advance();
            return Ok(
                Expr::TupleLiteral(
                    TupleLiteralExpr { elements: Vec::new(), span: start.merge(self.previous_span()) },
                ),
            );
        }
        let first = self.parse_expr()?;
        // one element and a comma make a tuple; without the comma, a grouping
        if self.match_token(TokenKind::Comma) {
            let mut elements = vec![first];
            while !self.check(TokenKind::RParen) && !self.at_end()
                invariant
                    self.moved_on(old(self)),
                    self.at() > old(self).at(),
                decreases self.toks().len() - self.at(),
            {
                elements.push(self.parse_expr()?);
                if !self.match_token(TokenKind::Comma) {
                    break;
                }
            }
            self.expect(TokenKind::RParen);
            Ok(Expr::TupleLiteral(TupleLiteralExpr { elements, span: start.merge(self.previous_span()) }))
        } else {
            self.expect(TokenKind::RParen);
            Ok(first)
        }
    }

    fn parse_array_literal(&mut self) -> (r: Result<Expr, Diagnostic>)
        requires
            old(self).wf(),
            old(self).cur().kind == TokenKind::LBracket,
        ensures
            final(self).moved_on(old(self)),
            fails_with_error(r),
            final(self).at() > old(self).at(),
        decreases old(self).toks().len() - old(self).at(), 0int,
    {
        let start = self.current_span();
        self.advance();
        let mut elements = Vec::new();
        while !self.check(TokenKind::RBracket) && !self.at_end()
            invariant
                self.moved_on(old(self)),
                self.at() > old(self).at(),
            decreases self.toks().len() - self.at(),
        {
            elements.push(self.parse_expr()?);
            if !self.match_token(TokenKind::Comma) {
                if !self.match_token(TokenKind::Semicolon) {
                    break;
                }
            }
        }
        self.expect(TokenKind::RBracket);
        Ok(Expr::ArrayLiteral(ArrayLiteralExpr { elements, span: start.merge(self.previous_span()) }))
    }

    fn parse_closure(&mut self) -> (r: Result<Expr, Diagnostic>)
        requires
            old(self).wf(),
            old(self).cur().kind == TokenKind::Pipe,
        ensures
            final(self).moved_on(old(self)),
            fails_with_error(r),
            final(self).at() > old(self).at(),
        decreases old(self).toks().len() - old(self).at(), 0int,
    {
        let start = self.current_span();
        self.expect(TokenKind::Pipe);
        let mut params = Vec::new();
        while !self.check(TokenKind::Pipe) && !self.at_end()
            invariant
                self.moved_on(old(self)),
                self.at() > old(self).at(),
            decreases self.toks().len() - self.at(),
        {
            let p_start = self.current_span();
            let name = self.expect_identifier("closure parameter");
            let type_expr = if self.match_token(TokenKind::Colon) {
                Some(self.parse_type()?)
            } else {
                None
            };
            params.push(ClosureParam { name, type_expr, span: p_start.merge(self.previous_span()) });
            if !self.match_token(TokenKind::Comma) {
                break;
            }
        }
        self.expect(TokenKind::Pipe);
        let body = self.parse_expr()?;
        let end = body.span();
        Ok(Expr::Closure(ClosureExpr { params, body: Box::new(body), span: start.merge(end) }))
    }

    fn parse_call_args(&mut self) -> (r: Result<Vec<CallArg>, Diagnostic>)
        requires
            old(self).wf(),
        ensures
            final(self).moved_on(old(self)),
            fails_with_error(r),
            old(self).cur().kind == TokenKind::RParen ==> {
                &&& r matches Ok(a) && a@.len() == 0
                &&& final(self).at() == old(self).at()
                &&& final(self).log() == old(self).log()
            },
            r is Ok && old(self).cur().kind != TokenKind::RParen ==> {
                let a = r->Ok_0@;
                let toks = old(self).toks();
                let i = old(self).at() as int;
                &&& a.len() > 0
                &&& (a[0].name is Some <==> (toks[i].kind == TokenKind::Identifier && toks[i + 1].kind
                    == TokenKind::Colon))
                &&& (a[0].name matches Some(n) ==> n@ == toks[i].lexeme@)
                &&& final(self).cur().kind != TokenKind::Comma
            },
        decreases old(self).toks().len() - old(self).at(), 31int,
    {
        let ghost toks = self.toks();
        let mut args: Vec<CallArg> = Vec::new();
        if self.check(TokenKind::RParen) {
            return Ok(args);
        }
        loop
            invariant
                self.moved_on(old(self)),
                toks == old(self).toks(),
                old(self).cur().kind != TokenKind::RParen,
                args@.len() == 0 ==> self.at() == old(self).at(),
                args@.len() > 0 ==> {
                    &&& (args@[0].name is Some <==> (toks[old(self).at() as int].kind == TokenKind::Identifier
                        && toks[old(self).at() + 1].kind == TokenKind::Colon))
                    &&& (args@[0].name matches Some(n) ==> n@ == toks[old(self).at() as int].lexeme@)
                },
            ensures
                args@.len() > 0,
                self.moved_on(old(self)),
                self.cur().kind != TokenKind::Comma,
                args@[0].name is Some <==> (toks[old(self).at() as int].kind == TokenKind::Identifier
                    && toks[old(self).at() + 1].kind == TokenKind::Colon),
                args@[0].name matches Some(n) ==> n@ == toks[old(self).at() as int].lexeme@,
            decreases self.toks().len() - self.at(),
        {
            let arg_start = self.current_span();
            // a named argument: name: value
            let name = if self.check(TokenKind::Identifier) && self.peek_ahead(1) == TokenKind::Colon {
                let n = self.expect_identifier("argument name");
                self.expect(TokenKind::Colon);
                Some(n)
            } else {
                None
            };
            let value = self.parse_expr()?;
            let arg_end = self.previous_span();
            args.push(CallArg { name, value, span: arg_start.merge(arg_end) });
            if !self.match_token(TokenKind::Comma) {
                break;
            }
        }
        Ok(args)
    }
}

} // verus!
