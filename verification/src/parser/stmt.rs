//! Statement parsing -- let, var, assignment, if, match, for, while, loop,
//! return, break, continue, select and expression statements.

use vstd::prelude::*;
use vstd::string::*;
use crate::lexer::{Token, TokenKind};
use crate::ast::TypeExpr;
use crate::ast::{
    Stmt, LetStmt, VarStmt, AssignStmt, AssignOp, ExprStmt, IfStmt, MatchStmt, MatchArm,
    MatchArmBody, ForStmt, WhileStmt, LoopStmt, ReturnStmt, BreakStmt, ContinueStmt, SelectStmt,
    SelectArm,
};
use crate::diagnostics::Diagnostic;
use super::state::{Parser, fails_with_error, skip_newlines_from};
use super::types::type_from;
use super::expr::{op_tokens, writes};
use crate::ast::nodes::expr_span;

verus! {

broadcast use vstd::string::group_string_axioms;

/// After the `let` or `var` at `i`, the tokens name the variable `name`
/// and give it the declared type `ty`, if any, up to the `=`.
pub open spec fn binding_head(toks: Seq<Token>, i: int, name: String, ty: Option<TypeExpr>) -> bool {
    &&& toks[i + 1].kind == TokenKind::Identifier
    &&& name@ == toks[i + 1].lexeme@
    &&& match ty {
        None => toks[i + 2].kind == TokenKind::Assign,
        Some(t) => {
            &&& toks[i + 2].kind == TokenKind::Colon
            &&& exists|k: int|
                #![trigger toks[k]]
                type_from(toks, i + 3, k, t) && toks[k].kind == TokenKind::Assign
        },
    }
}

/// The parts of a binding head give the head.
proof fn lemma_binding_head(toks: Seq<Token>, i: int, name: String, ty: Option<TypeExpr>, k: int)
    requires
        toks[i + 1].kind == TokenKind::Identifier,
        name@ == toks[i + 1].lexeme@,
        ty is None ==> toks[i + 2].kind == TokenKind::Assign,
        ty matches Some(t) ==> {
            &&& toks[i + 2].kind == TokenKind::Colon
            &&& type_from(toks, i + 3, k, t)
            &&& toks[k].kind == TokenKind::Assign
        },
    ensures
        binding_head(toks, i, name, ty),
{
    if ty is Some {
        assert(toks[k] == toks[k]);
    }
}

/// The assignment `a` read from `i` up to `e`: an expression, then the
/// assignment operator at some `p` that gives its operator, then the value,
/// with the span from the first token to the last. When the tokens before
/// `p` belong to the operator sublanguage, the target is what they write.
pub open spec fn assigned_after(toks: Seq<Token>, i: int, e: int, a: AssignStmt) -> bool {
    exists|p: int|
        #![trigger toks[p]]
        {
            &&& i <= p < e
            &&& assign_op_of(toks[p].kind) == Some(a.op)
            &&& a.span == toks[i].span.spec_merge(toks[e - 1].span)
            &&& op_tokens(toks, i, p) ==> writes(a.target, toks.subrange(i, p))
        }
}

/// The assignment operator a token kind stands for, if any.
pub open spec fn assign_op_of(k: TokenKind) -> Option<AssignOp> {
    match k {
        TokenKind::Assign => Some(AssignOp::Assign),
        TokenKind::PlusAssign => Some(AssignOp::AddAssign),
        TokenKind::MinusAssign => Some(AssignOp::SubAssign),
        TokenKind::StarAssign => Some(AssignOp::MulAssign),
        TokenKind::SlashAssign => Some(AssignOp::DivAssign),
        TokenKind::PercentAssign => Some(AssignOp::ModAssign),
        _ => None,
    }
}

fn assign_op(k: TokenKind) -> (r: Option<AssignOp>)
    ensures
        r == assign_op_of(k),
{
    match k {
        TokenKind::Assign => Some(AssignOp::Assign),
        TokenKind::PlusAssign => Some(AssignOp::AddAssign),
        TokenKind::MinusAssign => Some(AssignOp::SubAssign),
        TokenKind::StarAssign => Some(AssignOp::MulAssign),
        TokenKind::SlashAssign => Some(AssignOp::DivAssign),
        TokenKind::PercentAssign => Some(AssignOp::ModAssign),
        _ => None,
    }
}

/// Whether `s` is the kind of statement that a statement starting with a
/// token of kind `k` is: the statement keywords give their statements, the
/// declaration keywords (and `@`, `pub`) a nested item, and anything else
/// an expression statement or an assignment.
pub open spec fn stmt_starts(k: TokenKind, s: Stmt) -> bool {
    match k {
        TokenKind::Let => s is Let,
        TokenKind::Var => s is Var,
        TokenKind::If => s is If,
        TokenKind::Match => s is Match,
        TokenKind::For => s is For,
        TokenKind::While => s is While,
        TokenKind::Loop => s is Loop,
        TokenKind::Return => s is Return,
        TokenKind::Break => s is Break,
        TokenKind::Continue => s is Continue,
        TokenKind::Select => s is Select,
        TokenKind::At | TokenKind::Pub | TokenKind::Op | TokenKind::Struct | TokenKind::Enum
        | TokenKind::Ability | TokenKind::Impl | TokenKind::Const | TokenKind::Task
        | TokenKind::Protected => s is Item,
        _ => s is Expr || s is Assign,
    }
}

impl Parser {
    /// Parse a single statement. Dispatches on the leading token.
    pub(crate) fn parse_stmt(&mut self) -> (r: Result<Stmt, Diagnostic>)
        requires
            old(self).wf(),
        ensures
            final(self).moved_on(old(self)),
            fails_with_error(r),
            r is Ok ==> stmt_starts(
                old(self).toks()[skip_newlines_from(old(self).toks(), old(self).at() as int)].kind,
                r->Ok_0,
            ),
        decreases old(self).toks().len() - old(self).at(), 90int,
    {
        self.skip_newlines();
        match self.current_kind() {
            TokenKind::Let => self.parse_let_stmt(),
            TokenKind::Var => self.parse_var_stmt(),
            TokenKind::If => self.parse_if_stmt(),
            TokenKind::Match => self.parse_match_stmt(),
            TokenKind::For => self.parse_for_stmt(),
            TokenKind::While => self.parse_while_stmt(),
            TokenKind::Loop => self.parse_loop_stmt(),
            TokenKind::Return => self.parse_return_stmt(),
            TokenKind::Break => {
                let span = self.current_span();
                self.expect(TokenKind::Break);
                Ok(Stmt::Break(BreakStmt { span }))
            },
            TokenKind::Continue => {
                let span = self.current_span();
                self.expect(TokenKind::Continue);
                Ok(Stmt::Continue(ContinueStmt { span }))
            },
            TokenKind::Select => self.parse_select_stmt(),
            // nested item declarations
            TokenKind::At | TokenKind::Pub | TokenKind::Op | TokenKind::Struct | TokenKind::Enum
            | TokenKind::Ability | TokenKind::Impl | TokenKind::Const | TokenKind::Task
            | TokenKind::Protected => {
                let item = self.parse_item()?;
                Ok(Stmt::Item(Box::new(item)))
            },
            // everything else is an expression statement, or an assignment
            _ => self.parse_expr_or_assign_stmt(),
        }
    }

    #[verifier::spinoff_prover]
    fn parse_let_stmt(&mut self) -> (r: Result<Stmt, Diagnostic>)
        requires
            old(self).wf(),
            old(self).cur().kind == TokenKind::Let,
        ensures
            final(self).moved_on(old(self)),
            fails_with_error(r),
            r is Ok ==> r->Ok_0 is Let,
            r is Ok && final(self).log().len() == old(self).log().len() ==> (r->Ok_0 matches Stmt::Let(
                s,
            ) && binding_head(old(self).toks(), old(self).at() as int, s.name, s.type_expr)),
        decreases old(self).toks().len() - old(self).at(), 0int,
    {
        let ghost toks = self.toks();
        let start = self.current_span();
        self.expect(TokenKind::Let);
        let name = self.expect_identifier("variable name");
        let type_expr = if self.match_token(TokenKind::Colon) {
            match self.parse_type() {
                Ok(t) => Some(t),
                Err(d) => return Err(d),
            }
        } else {
            None
        };
        let ghost k = self.at() as int;
        self.expect(TokenKind::Assign);
        proof {
            if self.log().len() == old(self).log().len() {
                lemma_binding_head(toks, old(self).at() as int, name, type_expr, k);
            }
        }
        let value = self.parse_expr()?;
        let end = self.previous_span();
        self.expect_line_end();
        Ok(Stmt::Let(LetStmt { name, type_expr, value, span: start.merge(end) }))
    }

    #[verifier::spinoff_prover]
    fn parse_var_stmt(&mut self) -> (r: Result<Stmt, Diagnostic>)
        requires
            old(self).wf(),
            old(self).cur().kind == TokenKind::Var,
        ensures
            final(self).moved_on(old(self)),
            fails_with_error(r),
            r is Ok ==> r->Ok_0 is Var,
            r is Ok && final(self).log().len() == old(self).log().len() ==> (r->Ok_0 matches Stmt::Var(
                s,
            ) && binding_head(old(self).toks(), old(self).at() as int, s.name, s.type_expr)),
        decreases old(self).toks().len() - old(self).at(), 0int,
    {
        let ghost toks = self.toks();
        let start = self.current_span();
        self.expect(TokenKind::Var);
        let name = self.expect_identifier("variable name");
        let type_expr = if self.match_token(TokenKind::Colon) {
            match self.parse_type() {
                Ok(t) => Some(t),
                Err(d) => return Err(d),
            }
        } else {
            None
        };
        let ghost k = self.at() as int;
        self.expect(TokenKind::Assign);
        proof {
            if self.log().len() == old(self).log().len() {
                lemma_binding_head(toks, old(self).at() as int, name, type_expr, k);
            }
        }
        let value = self.parse_expr()?;
        let end = self.previous_span();
        self.expect_line_end();
        Ok(Stmt::Var(VarStmt { name, type_expr, value, span: start.merge(end) }))
    }

    /// An `if` statement: each branch is closed by its own `end`, and the
    /// `else if` and `else` branches follow after it.
    fn parse_if_stmt(&mut self) -> (r: Result<Stmt, Diagnostic>)
        requires
            old(self).wf(),
            old(self).cur().kind == TokenKind::If,
        ensures
            final(self).moved_on(old(self)),
            fails_with_error(r),
            r is Ok ==> r->Ok_0 is If,
        decreases old(self).toks().len() - old(self).at(), 0int,
    {
        let start = self.current_span();
        self.expect(TokenKind::If);
        let condition = self.parse_expr()?;
        self.expect(TokenKind::FatArrow);
        let then_block = self.parse_block_body(start)?;
        let mut else_ifs = Vec::new();
        let mut else_block = None;
        self.skip_newlines();
        while self.check(TokenKind::Else)
            invariant
                self.moved_on(old(self)),
                self.at() > old(self).at(),
            decreases self.toks().len() - self.at(),
        {
            self.advance();
            if self.match_token(TokenKind::If) {
                let cond = self.parse_expr()?;
                self.expect(TokenKind::FatArrow);
                let block = self.parse_block_body(start)?;
                else_ifs.push((cond, block));
            } else {
                self.expect(TokenKind::FatArrow);
                else_block = Some(self.parse_block_body(start)?);
                break;
            }
            self.skip_newlines();
        }
        let end = self.previous_span();
        Ok(
            Stmt::If(
                IfStmt { condition, then_block, else_ifs, else_block, span: start.merge(end) },
            ),
        )
    }

    fn parse_match_stmt(&mut self) -> (r: Result<Stmt, Diagnostic>)
        requires
            old(self).wf(),
            old(self).cur().kind == TokenKind::Match,
        ensures
            final(self).moved_on(old(self)),
            fails_with_error(r),
            r is Ok ==> r->Ok_0 is Match,
        decreases old(self).toks().len() - old(self).at(), 0int,
    {
        let start = self.current_span();
        self.expect(TokenKind::Match);
        let subject = self.parse_expr()?;
        self.expect(TokenKind::FatArrow);
        self.skip_newlines();
        let mut arms = Vec::new();
        while !self.check(TokenKind::End) && !self.at_end()
            invariant
                self.moved_on(old(self)),
                self.at() > old(self).at(),
            decreases self.toks().len() - self.at(),
        {
            let before = self.position();
            self.skip_newlines();
            if self.check(TokenKind::End) {
                break;
            }
            let arm_start = self.current_span();
            let pattern = self.parse_pattern()?;
            let guard = if self.match_token(TokenKind::When) {
                Some(self.parse_expr()?)
            } else {
                None
            };
            self.expect(TokenKind::FatArrow);
            // a multi-line arm body ends with `end`; otherwise it is one expression
            let body = if self.check(TokenKind::Newline) || self.check(TokenKind::End) {
                let block = self.parse_block_body(arm_start)?;
                MatchArmBody::Block(block)
            } else {
                let expr = self.parse_expr()?;
                MatchArmBody::Expr(expr)
            };
            let arm_end = self.previous_span();
            arms.push(MatchArm { pattern, guard, body, span: arm_start.merge(arm_end) });
            self.skip_newlines();
            if self.position() == before {
                break;
            }
        }
        let end = self.current_span();
        self.expect(TokenKind::End);
        Ok(Stmt::Match(MatchStmt { subject, arms, span: start.merge(end) }))
    }

    fn parse_for_stmt(&mut self) -> (r: Result<Stmt, Diagnostic>)
        requires
            old(self).wf(),
            old(self).cur().kind == TokenKind::For,
        ensures
            final(self).moved_on(old(self)),
            fails_with_error(r),
            r is Ok ==> r->Ok_0 is For,
        decreases old(self).toks().len() - old(self).at(), 0int,
    {
        let start = self.current_span();
        self.expect(TokenKind::For);
        let binding = self.expect_identifier("loop variable");
        self.expect(TokenKind::In);
        let iterable = self.parse_expr()?;
        self.expect(TokenKind::FatArrow);
        let body = self.parse_block_body(start)?;
        Ok(Stmt::For(ForStmt { binding, iterable, body, span: start.merge(self.previous_span()) }))
    }

    fn parse_while_stmt(&mut self) -> (r: Result<Stmt, Diagnostic>)
        requires
            old(self).wf(),
            old(self).cur().kind == TokenKind::While,
        ensures
            final(self).moved_on(old(self)),
            fails_with_error(r),
            r is Ok ==> r->Ok_0 is While,
        decreases old(self).toks().len() - old(self).at(), 0int,
    {
        let start = self.current_span();
        self.expect(TokenKind::While);
        let condition = self.parse_expr()?;
        self.expect(TokenKind::FatArrow);
        let body = self.parse_block_body(start)?;
        Ok(Stmt::While(WhileStmt { condition, body, span: start.merge(self.previous_span()) }))
    }

    fn parse_loop_stmt(&mut self) -> (r: Result<Stmt, Diagnostic>)
        requires
            old(self).wf(),
            old(self).cur().kind == TokenKind::Loop,
        ensures
            final(self).moved_on(old(self)),
            fails_with_error(r),
            r is Ok ==> r->Ok_0 is Loop,
        decreases old(self).toks().len() - old(self).at(), 0int,
    {
        let start = self.current_span();
        self.expect(TokenKind::Loop);
        self.expect(TokenKind::FatArrow);
        let body = self.parse_block_body(start)?;
        Ok(Stmt::Loop(LoopStmt { body, span: start.merge(self.previous_span()) }))
    }

    fn parse_return_stmt(&mut self) -> (r: Result<Stmt, Diagnostic>)
        requires
            old(self).wf(),
            old(self).cur().kind == TokenKind::Return,
        ensures
            final(self).moved_on(old(self)),
            fails_with_error(r),
            r is Ok ==> r->Ok_0 is Return,
        decreases old(self).toks().len() - old(self).at(), 0int,
    {
        let start = self.current_span();
        self.expect(TokenKind::Return);
        let value = if self.check(TokenKind::Newline) || self.check(TokenKind::Eof) || self.check(
            TokenKind::End,
        ) {
            None
        } else {
            Some(self.parse_expr()?)
        };
        let end = self.previous_span();
        Ok(Stmt::Return(ReturnStmt { value, span: start.merge(end) }))
    }

    fn parse_select_stmt(&mut self) -> (r: Result<Stmt, Diagnostic>)
        requires
            old(self).wf(),
            old(self).cur().kind == TokenKind::Select,
        ensures
            final(self).moved_on(old(self)),
            fails_with_error(r),
            r is Ok ==> r->Ok_0 is Select,
        decreases old(self).toks().len() - old(self).at(), 0int,
    {
        let start = self.current_span();
        self.expect(TokenKind::Select);
        self.expect(TokenKind::FatArrow);
        self.skip_newlines();
        let mut arms = Vec::new();
        let mut first = true;
        while !self.check(TokenKind::End) && !self.at_end()
            invariant
                self.moved_on(old(self)),
                self.at() > old(self).at(),
            decreases self.toks().len() - self.at(),
        {
            self.skip_newlines();
            if self.check(TokenKind::End) {
                break;
            }
            // after the first arm, each arm starts with `or`
            if !first {
                if !self.match_token(TokenKind::Or) {
                    break;
                }
                self.skip_newlines();
            }
            first = false;
            let arm = self.parse_select_arm()?;
            arms.push(arm);
            self.skip_newlines();
        }
        let end = self.current_span();
        self.expect(TokenKind::End);
        Ok(Stmt::Select(SelectStmt { arms, span: start.merge(end) }))
    }

    fn parse_select_arm(&mut self) -> (r: Result<SelectArm, Diagnostic>)
        requires
            old(self).wf(),
        ensures
            final(self).moved_on(old(self)),
            fails_with_error(r),
            r is Ok ==> final(self).at() > old(self).at(),
        decreases old(self).toks().len() - old(self).at(), 0int,
    {
        if self.check(TokenKind::Accept) {
            let arm_start = self.current_span();
            self.advance();
            let entry_name = self.expect_identifier("entry name");
            self.expect(TokenKind::LParen);
            let params = self.parse_params()?;
            self.expect(TokenKind::RParen);
            self.expect(TokenKind::FatArrow);
            let body = self.parse_block_body(arm_start)?;
            Ok(
                SelectArm::Accept {
                    entry_name,
                    params,
                    body,
                    span: arm_start.merge(self.previous_span()),
                },
            )
        } else if self.check(TokenKind::Delay) {
            let arm_start = self.current_span();
            self.advance();
            let duration = self.parse_expr()?;
            self.expect(TokenKind::FatArrow);
            let body = self.parse_block_body(arm_start)?;
            Ok(SelectArm::Delay { duration, body, span: arm_start.merge(self.previous_span()) })
        } else if self.check(TokenKind::When) {
            let arm_start = self.current_span();
            self.advance();
            let guard = self.parse_expr()?;
            self.expect(TokenKind::FatArrow);
            self.skip_newlines();
            let inner = self.parse_select_arm()?;
            Ok(
                SelectArm::When {
                    guard,
                    accept: Box::new(inner),
                    span: arm_start.merge(self.previous_span()),
                },
            )
        } else {
            Err(
                self.error(
                    String::from_str("expected 'accept', 'delay', or 'when' in select statement"),
                ),
            )
        }
    }

    /// An expression statement, or an assignment when an assignment
    /// operator follows the expression.
    fn parse_expr_or_assign_stmt(&mut self) -> (r: Result<Stmt, Diagnostic>)
        requires
            old(self).wf(),
        ensures
            final(self).moved_on(old(self)),
            fails_with_error(r),
            r is Ok ==> (r->Ok_0 is Expr || r->Ok_0 is Assign),
            r matches Ok(Stmt::Expr(x)) ==> x.span == expr_span(x.expr) && assign_op_of(final(self).cur().kind)
                is None,
            r matches Ok(Stmt::Expr(x)) ==> (op_tokens(old(self).toks(), old(self).at() as int, final(self).at() as int)
                ==> writes(x.expr, old(self).toks().subrange(old(self).at() as int, final(self).at() as int))),
            r matches Ok(Stmt::Assign(a)) ==> assigned_after(old(self).toks(), old(self).at() as int, final(self).at() as int, a),
        decreases old(self).toks().len() - old(self).at(), 80int,
    {
        let start = self.current_span();
        let expr = self.parse_expr()?;
        let ghost p = self.at() as int;
        match assign_op(self.current_kind()) {
            Some(op) => {
                self.advance();
                proof {
                    assert(self.toks()[p] == self.toks()[p]);
                }
                let value = self.parse_expr()?;
                let end = self.previous_span();
                Ok(Stmt::Assign(AssignStmt { target: expr, op, value, span: start.merge(end) }))
            },
            None => {
                let span = expr.span();
                Ok(Stmt::Expr(ExprStmt { expr, span }))
            },
        }
    }
}

} // verus!
