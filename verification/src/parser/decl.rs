//! Declaration parsing -- functions, structs, enums, abilities, impl blocks,
//! tasks, protected objects, constants, units and extern blocks.

use vstd::prelude::*;
use vstd::string::*;
use crate::lexer::{Token, TokenKind};
use crate::ast::{
    Item, OpDecl, Param, GenericParam, Annotation, AnnotationArg, TypeExpr, StructDecl,
    FieldDecl, EnumDecl, VariantDecl, AbilityDecl, ImplBlock, ConstDecl, TaskDecl, TaskEntry,
    TaskBodyDecl, ProtectedBlock, ProtectedField, UnitDeclNode, ExternBlock, StaticAssertNode,
    Block, Stmt, ReturnStmt, ExprStmt, Expr, LiteralExpr, LiteralValue,
};
use crate::diagnostics::{Diagnostic, Span};
use super::state::{Parser, fails_with_error, skip_newlines_from, starts_declaration, no_declaration_message, reported};
use super::types::type_from;
use super::literal::{trim_quote_marks, trim_quotes};

verus! {

broadcast use vstd::string::group_string_axioms;

/// The declaration that starts at `i` and ends just before `e` is named by
/// the identifier after its keyword, closes with `end`, and spans from its
/// keyword to that `end`.
pub open spec fn decl_head(toks: Seq<Token>, i: int, e: int, name: String, span: Span) -> bool {
    &&& toks[i + 1].kind == TokenKind::Identifier
    &&& name@ == toks[i + 1].lexeme@
    &&& toks[e - 1].kind == TokenKind::End
    &&& span == toks[i].span.spec_merge(toks[e - 1].span)
}

/// The head of an `impl` block at `i`: `impl Ability for Type` gives the
/// ability and the target type, `impl Type` the target type alone.
pub open spec fn impl_head(toks: Seq<Token>, i: int, ability: Option<String>, target: String) -> bool {
    &&& toks[i + 1].kind == TokenKind::Identifier
    &&& if toks[i + 2].kind == TokenKind::For {
        &&& toks[i + 3].kind == TokenKind::Identifier
        &&& ability matches Some(a) && a@ == toks[i + 1].lexeme@
        &&& target@ == toks[i + 3].lexeme@
    } else {
        ability is None && target@ == toks[i + 1].lexeme@
    }
}

/// The item `item` starts at `q`, after no annotation: an optional `pub`,
/// which makes it public where it can be, then the keyword of its kind.
pub open spec fn item_starts(toks: Seq<Token>, q: int, item: Item) -> bool {
    let is_pub = toks[q].kind == TokenKind::Pub;
    let k = if is_pub { q + 1 } else { q };
    match item {
        Item::Op(f) => toks[k].kind == TokenKind::Op && f.is_pub == is_pub && f.annotations@.len() == 0,
        Item::Struct(d) => toks[k].kind == TokenKind::Struct && d.is_pub == is_pub,
        Item::Enum(d) => toks[k].kind == TokenKind::Enum && d.is_pub == is_pub,
        Item::Ability(d) => toks[k].kind == TokenKind::Ability && d.is_pub == is_pub,
        Item::ImplBlock(_) => toks[k].kind == TokenKind::Impl,
        Item::Constant(c) => toks[k].kind == TokenKind::Const && c.is_pub == is_pub,
        Item::TaskBody(_) => toks[k].kind == TokenKind::Task && toks[k + 1].kind == TokenKind::Body,
        Item::TaskDecl(t) => toks[k].kind == TokenKind::Task && toks[k + 1].kind != TokenKind::Body && t.is_pub
            == is_pub,
        Item::ProtectedDecl(p) => toks[k].kind == TokenKind::Protected && p.is_pub == is_pub,
        Item::UnitDecl(_) => toks[k].kind == TokenKind::Unit,
        Item::ExternBlock(_) => toks[k].kind == TokenKind::Extern,
        Item::StaticAssert(_) => toks[k].kind == TokenKind::StaticAssert,
    }
}

/// The lexemes of the tokens from `from` up to `to`, separated by spaces.
pub open spec fn spaced_lexemes(toks: Seq<Token>, from: int, to: int) -> Seq<char>
    decreases to - from,
{
    if to <= from {
        Seq::empty()
    } else if to == from + 1 {
        toks[from].lexeme@
    } else {
        spaced_lexemes(toks, from, to - 1) + " "@ + toks[to - 1].lexeme@
    }
}

/// The first parameter of a list at `i`: `self`, `mut self`, or a name
/// (after `mut` for a mutable one).
pub open spec fn param_head(toks: Seq<Token>, i: int, p: Param) -> bool {
    if toks[i].kind == TokenKind::SelfLower {
        p.name@ == "self"@ && !p.is_mut && p.type_expr is SelfType
    } else if toks[i].kind == TokenKind::Mut && toks[i + 1].kind == TokenKind::SelfLower {
        p.name@ == "self"@ && p.is_mut && p.type_expr is SelfType
    } else if toks[i].kind == TokenKind::Mut {
        toks[i + 1].kind == TokenKind::Identifier && p.name@ == toks[i + 1].lexeme@ && p.is_mut
    } else {
        toks[i].kind == TokenKind::Identifier && p.name@ == toks[i].lexeme@ && !p.is_mut
    }
}

/// The tokens from `p` up to `q` declare the field `f`: its name, a colon,
/// and its type.
pub open spec fn field_decl_from(toks: Seq<Token>, p: int, q: int, f: FieldDecl) -> bool {
    &&& toks[p].kind == TokenKind::Identifier
    &&& f.name@ == toks[p].lexeme@
    &&& toks[p + 1].kind == TokenKind::Colon
    &&& type_from(toks, p + 2, q, f.type_expr)
    &&& f.span == toks[p].span.spec_merge(toks[q - 1].span)
}

/// The tokens from `j` up to `k` declare the fields `fs`, one after the
/// other, each followed by any line breaks.
pub open spec fn fields_declared(toks: Seq<Token>, j: int, k: int, fs: Seq<FieldDecl>) -> bool
    decreases fs.len(),
{
    if fs.len() == 0 {
        k == j
    } else {
        exists|m: int, q: int|
            #![trigger toks[m], toks[q]]
            {
                &&& fields_declared(toks, j, m, fs.subrange(0, fs.len() - 1))
                &&& field_decl_from(toks, m, q, fs[fs.len() - 1])
                &&& k == skip_newlines_from(toks, q)
            }
    }
}

/// The tokens up to `k` end with declarations of the fields `fs`.
pub open spec fn fields_before(toks: Seq<Token>, k: int, fs: Seq<FieldDecl>) -> bool {
    exists|j: int| #[trigger] fields_declared(toks, j, k, fs)
}

/// One more field extends a run of field declarations.
proof fn lemma_fields_declared_push(toks: Seq<Token>, j: int, m: int, q: int, fs: Seq<FieldDecl>, f: FieldDecl)
    requires
        fields_declared(toks, j, m, fs),
        field_decl_from(toks, m, q, f),
    ensures
        fields_declared(toks, j, skip_newlines_from(toks, q), fs.push(f)),
{
    let gs = fs.push(f);
    assert(gs.subrange(0, gs.len() - 1) =~= fs);
    assert(gs[gs.len() - 1] == f);
    assert(fields_declared(toks, j, m, gs.subrange(0, gs.len() - 1)) && toks[m] == toks[m] && toks[q]
        == toks[q]);
}

/// From `i` on the tokens spell an operation with no parameters, no
/// return type and an empty body: `op`, its name, `(`, `)`, `=>`, perhaps
/// line breaks, and `end`.
pub open spec fn empty_op_at(toks: Seq<Token>, i: int) -> bool {
    &&& toks[i].kind == TokenKind::Op
    &&& toks[i + 1].kind == TokenKind::Identifier
    &&& toks[i + 2].kind == TokenKind::LParen
    &&& toks[i + 3].kind == TokenKind::RParen
    &&& toks[i + 4].kind == TokenKind::FatArrow
    &&& toks[skip_newlines_from(toks, i + 5)].kind == TokenKind::End
}

/// Where the empty operation at `i` ends: just after its `end`.
pub open spec fn empty_op_end(toks: Seq<Token>, i: int) -> int {
    skip_newlines_from(toks, i + 5) + 1
}

/// `item` is an operation named `name` with no annotations, generics,
/// parameters or return type, not public, whose body has no statement.
pub open spec fn empty_op_item(item: Item, name: Seq<char>) -> bool {
    &&& item matches Item::Op(f)
    &&& f.name@ == name
    &&& f.annotations@.len() == 0
    &&& f.effects@.len() == 0
    &&& f.generics@.len() == 0
    &&& f.params@.len() == 0
    &&& f.return_type is None
    &&& !f.is_pub
    &&& f.body matches Some(b) && b.stmts@.len() == 0
}

impl Parser {
    /// Parse any top-level item. Dispatches on the current token, after the
    /// annotations and the visibility modifier.
    pub(crate) fn parse_item(&mut self) -> (r: Result<Item, Diagnostic>)
        requires
            old(self).wf(),
        ensures
            final(self).moved_on(old(self)),
            fails_with_error(r),
            r is Ok && old(self).toks()[skip_newlines_from(old(self).toks(), old(self).at() as int)].kind
                != TokenKind::At ==> item_starts(
                old(self).toks(),
                skip_newlines_from(old(self).toks(), old(self).at() as int),
                r->Ok_0,
            ),
            !starts_declaration(old(self).toks()[skip_newlines_from(old(self).toks(), old(self).at() as int)].kind)
                ==> (r matches Err(d) && reported(
                d,
                no_declaration_message(old(self).toks()[skip_newlines_from(old(self).toks(), old(self).at() as int)].kind),
                old(self).toks()[skip_newlines_from(old(self).toks(), old(self).at() as int)].span,
                old(self).file(),
            ) && final(self).log() == old(self).log()),
            empty_op_at(old(self).toks(), skip_newlines_from(old(self).toks(), old(self).at() as int)) ==> {
                let q = skip_newlines_from(old(self).toks(), old(self).at() as int);
                &&& r matches Ok(item) && empty_op_item(item, old(self).toks()[q + 1].lexeme@)
                &&& final(self).log() == old(self).log()
                &&& final(self).at() == empty_op_end(old(self).toks(), q)
            },
        decreases old(self).toks().len() - old(self).at(), 80int,
    {
        self.skip_newlines();
        let ghost q = self.at() as int;
        let annotations = self.parse_annotations();
        let is_pub = self.match_token(TokenKind::Pub);
        let ghost k = self.at() as int;
        assert(self.toks()[q].kind != TokenKind::At ==> annotations@.len() == 0 && (is_pub == (self.toks()[q].kind
            == TokenKind::Pub)) && k == (if is_pub { q + 1 } else { q }));
        let item = match self.current_kind() {
            TokenKind::Op => {
                let mut func = self.parse_function()?;
                func.annotations = annotations;
                func.is_pub = is_pub;
                Item::Op(func)
            },
            TokenKind::Struct => {
                let mut s = self.parse_struct_decl()?;
                s.is_pub = is_pub;
                Item::Struct(s)
            },
            TokenKind::Enum => {
                let mut e = self.parse_enum_decl()?;
                e.is_pub = is_pub;
                Item::Enum(e)
            },
            TokenKind::Ability => {
                let mut a = self.parse_ability_decl()?;
                a.is_pub = is_pub;
                Item::Ability(a)
            },
            TokenKind::Impl => Item::ImplBlock(self.parse_impl_block()?),
            TokenKind::Const => {
                let mut c = self.parse_const_decl()?;
                c.is_pub = is_pub;
                Item::Constant(c)
            },
            TokenKind::Task => {
                if self.peek_ahead(1) == TokenKind::Body {
                    Item::TaskBody(self.parse_task_body()?)
                } else {
                    let mut t = self.parse_task_decl()?;
                    t.is_pub = is_pub;
                    Item::TaskDecl(t)
                }
            },
            TokenKind::Protected => {
                let mut p = self.parse_protected_decl()?;
                p.is_pub = is_pub;
                Item::ProtectedDecl(p)
            },
            TokenKind::Unit => Item::UnitDecl(self.parse_unit_decl()),
            TokenKind::Extern => Item::ExternBlock(self.parse_extern_block()?),
            TokenKind::StaticAssert => Item::StaticAssert(self.parse_static_assert()?),
            _ => {
                let found = self.current_kind();
                let mut m = String::from_str("expected declaration, found ");
                m.append(found.name());
                return Err(self.error(m));
            },
        };
        Ok(item)
    }

    // -- Annotations --

    pub(crate) fn parse_annotations(&mut self) -> (a: Vec<Annotation>)
        requires
            old(self).wf(),
        ensures
            final(self).moved_on(old(self)),
            old(self).cur().kind != TokenKind::At ==> a@.len() == 0 && final(self).at() == old(self).at()
                && final(self).log() == old(self).log(),
            old(self).cur().kind == TokenKind::At ==> a@.len() > 0,
            old(self).cur().kind == TokenKind::At && final(self).log().len() == old(self).log().len() ==> old(
                self,
            ).toks()[old(self).at() + 1].kind == TokenKind::Identifier && a@[0].name@ == old(self).toks()[old(
                self,
            ).at() + 1].lexeme@,
        decreases old(self).toks().len() - old(self).at(), 75int,
    {
        let ghost n0 = self.log().len();
        let ghost toks = self.toks();
        let mut annotations: Vec<Annotation> = Vec::new();
        while self.check(TokenKind::At)
            invariant
                self.moved_on(old(self)),
                toks == old(self).toks(),
                n0 == old(self).log().len(),
                annotations@.len() == 0 ==> self.at() == old(self).at() && self.log() == old(self).log(),
                old(self).cur().kind != TokenKind::At ==> annotations@.len() == 0,
                annotations@.len() > 0 && self.log().len() == n0 ==> toks[old(self).at() + 1].kind
                    == TokenKind::Identifier && annotations@[0].name@ == toks[old(self).at() + 1].lexeme@,
            decreases self.toks().len() - self.at(),
        {
            annotations.push(self.parse_annotation());
            self.skip_newlines();
        }
        annotations
    }

    fn parse_annotation(&mut self) -> (a: Annotation)
        requires
            old(self).wf(),
            old(self).cur().kind == TokenKind::At,
        ensures
            final(self).moved_on(old(self)),
            final(self).at() > old(self).at(),
            final(self).log().len() == old(self).log().len() ==> old(self).toks()[old(self).at() + 1].kind
                == TokenKind::Identifier && a.name@ == old(self).toks()[old(self).at() + 1].lexeme@,
        decreases old(self).toks().len() - old(self).at(), 0int,
    {
        let ghost n0 = self.log().len();
        let ghost toks = self.toks();
        let start = self.current_span();
        self.expect(TokenKind::At);
        let name = self.expect_identifier("annotation name");
        let ghost n1 = self.log().len();
        assert(n1 == n0 ==> toks[old(self).at() + 1].kind == TokenKind::Identifier && name@ == toks[old(self).at()
            + 1].lexeme@);
        let mut args = Vec::new();
        if self.match_token(TokenKind::LParen) {
            loop
                invariant
                    self.moved_on(old(self)),
                    n1 <= self.log().len(),
                    self.at() > old(self).at(),
                decreases self.toks().len() - self.at(),
            {
                if self.check(TokenKind::RParen) {
                    break;
                }
                let arg_start = self.current_span();
                let key = if self.check(TokenKind::Identifier) && self.peek_ahead(1)
                    == TokenKind::Colon {
                    let k = self.expect_identifier("annotation key");
                    self.expect(TokenKind::Colon);
                    Some(k)
                } else {
                    None
                };
                let value = match self.parse_expr() {
                    Ok(v) => v,
                    Err(_) => Expr::Literal(
                        LiteralExpr { value: LiteralValue::None_, span: self.current_span() },
                    ),
                };
                let arg_end = self.previous_span();
                args.push(AnnotationArg { key, value, span: arg_start.merge(arg_end) });
                if !self.match_token(TokenKind::Comma) {
                    break;
                }
            }
            self.expect(TokenKind::RParen);
        }
        let end = self.previous_span();
        Annotation { name, args, span: start.merge(end) }
    }

    // -- Functions --

    #[verifier::rlimit(40)]
    pub(crate) fn parse_function(&mut self) -> (r: Result<OpDecl, Diagnostic>)
        requires
            old(self).wf(),
        ensures
            final(self).moved_on(old(self)),
            fails_with_error(r),
            r is Ok ==> r->Ok_0.annotations@.len() == 0 && r->Ok_0.effects@.len() == 0 && !r->Ok_0.is_pub,
            r is Ok && final(self).log().len() == old(self).log().len() ==> {
                let toks = old(self).toks();
                let i = old(self).at() as int;
                &&& toks[i].kind == TokenKind::Op
                &&& toks[i + 1].kind == TokenKind::Identifier
                &&& r->Ok_0.name@ == toks[i + 1].lexeme@
                &&& toks[i + 2].kind != TokenKind::Lt ==> r->Ok_0.generics@.len() == 0
                &&& r->Ok_0.span == toks[i].span.spec_merge(toks[final(self).at() - 1].span)
            },
            empty_op_at(old(self).toks(), old(self).at() as int) ==> {
                &&& r matches Ok(f) && empty_op_item(Item::Op(f), old(self).toks()[old(self).at() + 1].lexeme@)
                &&& final(self).log() == old(self).log()
                &&& final(self).at() == empty_op_end(old(self).toks(), old(self).at() as int)
            },
        decreases old(self).toks().len() - old(self).at(), 70int,
    {
        let ghost plain = empty_op_at(old(self).toks(), old(self).at() as int);
        let ghost n0 = self.log().len();
        let ghost toks = self.toks();
        let start = self.current_span();
        self.expect(TokenKind::Op);
        let name = self.expect_identifier("function name");
        let generics = if self.check(TokenKind::Lt) {
            self.parse_generic_params()?
        } else {
            Vec::new()
        };
        let ghost n1 = self.log().len();
        assert(n1 == n0 ==> toks[old(self).at() as int].kind == TokenKind::Op && toks[old(self).at() + 1].kind
            == TokenKind::Identifier && name@ == toks[old(self).at() + 1].lexeme@ && (toks[old(self).at() + 2].kind
            != TokenKind::Lt ==> generics@.len() == 0) && self.at() >= old(self).at() + 1);
        self.expect(TokenKind::LParen);
        let params = self.parse_params()?;
        self.expect(TokenKind::RParen);
        let return_type = if self.match_token(TokenKind::Arrow) {
            Some(self.parse_type()?)
        } else {
            None
        };
        proof {
            if plain {
                assert(self.at() == old(self).at() + 4 && self.log() == old(self).log());
                assert(self.cur().kind == TokenKind::FatArrow);
                assert(return_type is None && params@.len() == 0 && generics@.len() == 0);
            }
        }
        let body = if self.match_token(TokenKind::FatArrow) {
            let has_newline = self.check(TokenKind::Newline);
            if has_newline {
                proof {
                    if plain {
                        assert(skip_newlines_from(toks, old(self).at() + 5) == skip_newlines_from(
                            toks,
                            old(self).at() + 6,
                        ));
                    }
                }
                self.advance();
                Some(self.parse_block_body(start)?)
            } else {
                self.skip_newlines();
                proof {
                    if plain {
                        assert(self.at() == old(self).at() + 5);
                        assert(self.cur().kind == TokenKind::End);
                    }
                }
                if self.check(TokenKind::End) {
                    Some(self.parse_block_body(start)?)
                } else {
                    assert(!plain);
                    let expr = self.parse_expr()?;
                    if self.check(TokenKind::Newline) || self.at_end() {
                        // an inline single-expression body
                        let span = expr.span();
                        Some(
                            Block {
                                stmts: vec![Stmt::Return(ReturnStmt { value: Some(expr), span })],
                                span,
                            },
                        )
                    } else {
                        // several statements on the line of the `=>`
                        let span = expr.span();
                        let mut stmts = vec![Stmt::Expr(ExprStmt { span, expr })];
                        self.skip_newlines();
                        while !self.check(TokenKind::End) && !self.at_end()
                            invariant
                                self.moved_on(old(self)),
                                n1 <= self.log().len(),
                                n1 == n0 ==> self.at() >= old(self).at() + 1,
                                self.at() > old(self).at(),
                                !empty_op_at(old(self).toks(), old(self).at() as int),
                            decreases self.toks().len() - self.at(),
                        {
                            let before = self.position();
                            stmts.push(self.parse_stmt()?);
                            self.skip_newlines();
                            if self.position() == before {
                                break;
                            }
                        }
                        let end_span = self.current_span();
                        self.expect(TokenKind::End);
                        Some(Block { stmts, span: start.merge(end_span) })
                    }
                }
            }
        } else {
            None
        };
        let end = self.previous_span();
        Ok(
            OpDecl {
                name,
                annotations: Vec::new(),
                effects: Vec::new(),
                generics,
                params,
                return_type,
                body,
                is_pub: false,
                span: start.merge(end),
            },
        )
    }

    pub(crate) fn parse_params(&mut self) -> (r: Result<Vec<Param>, Diagnostic>)
        requires
            old(self).wf(),
        ensures
            final(self).moved_on(old(self)),
            fails_with_error(r),
            old(self).cur().kind == TokenKind::RParen ==> {
                &&& r matches Ok(ps) && ps@.len() == 0
                &&& final(self).log() == old(self).log()
                &&& final(self).at() == old(self).at()
            },
            r is Ok && old(self).cur().kind != TokenKind::RParen ==> r->Ok_0@.len() > 0,
            r is Ok && final(self).log().len() == old(self).log().len() ==> old(self).cur().kind != TokenKind::RParen ==> param_head(
                old(self).toks(),
                old(self).at() as int,
                r->Ok_0@[0],
            ),
        decreases old(self).toks().len() - old(self).at(), 65int,
    {
        let ghost n0 = self.log().len();
        let ghost toks = self.toks();
        proof {
            reveal_strlit("self");
        }
        let mut params: Vec<Param> = Vec::new();
        if self.check(TokenKind::RParen) {
            return Ok(params);
        }
        loop
            invariant
                self.moved_on(old(self)),
                toks == old(self).toks(),
                n0 == old(self).log().len(),
                old(self).cur().kind != TokenKind::RParen,
                params@.len() == 0 ==> self.at() == old(self).at() && self.log() == old(self).log(),
                params@.len() > 0 && self.log().len() == n0 ==> param_head(toks, old(self).at() as int, params@[0]),
            ensures
                params@.len() > 0,
            decreases self.toks().len() - self.at(),
        {
            let param_start = self.current_span();
            if self.check(TokenKind::SelfLower) {
                let span = self.current_span();
                self.advance();
                params.push(
                    Param {
                        name: String::from_str("self"),
                        type_expr: TypeExpr::SelfType { span },
                        is_mut: false,
                        span,
                    },
                );
                if !self.match_token(TokenKind::Comma) {
                    break;
                }
            } else if self.check(TokenKind::Mut) && self.peek_ahead(1) == TokenKind::SelfLower {
                let span = self.current_span();
                self.advance();
                self.advance();
                params.push(
                    Param {
                        name: String::from_str("self"),
                        type_expr: TypeExpr::SelfType { span },
                        is_mut: true,
                        span,
                    },
                );
                if !self.match_token(TokenKind::Comma) {
                    break;
                }
            } else {
                let is_mut = self.match_token(TokenKind::Mut);
                let name = self.expect_identifier("parameter name");
                self.expect(TokenKind::Colon);
                let type_expr = self.parse_type()?;
                let param_end = self.previous_span();
                params.push(Param { name, type_expr, is_mut, span: param_start.merge(param_end) });
                if !self.match_token(TokenKind::Comma) {
                    break;
                }
            }
        }
        Ok(params)
    }

    fn parse_generic_params(&mut self) -> (r: Result<Vec<GenericParam>, Diagnostic>)
        requires
            old(self).wf(),
            old(self).cur().kind == TokenKind::Lt,
        ensures
            final(self).moved_on(old(self)),
            fails_with_error(r),
            old(self).toks()[old(self).at() + 1].kind == TokenKind::Gt ==> {
                &&& r matches Ok(g) && g@.len() == 0
                &&& final(self).log() == old(self).log()
                &&& final(self).at() == old(self).at() + 2
            },
            r is Ok && final(self).log().len() == old(self).log().len() ==> old(self).toks()[final(self).at() - 1].kind == TokenKind::Gt,
            r is Ok && final(self).log().len() == old(self).log().len() ==> old(self).toks()[old(self).at() + 1].kind != TokenKind::Gt ==> {
                &&& r->Ok_0@.len() > 0
                &&& old(self).toks()[old(self).at() + 1].kind == TokenKind::Identifier
                &&& r->Ok_0@[0].name@ == old(self).toks()[old(self).at() + 1].lexeme@
            },
        decreases old(self).toks().len() - old(self).at(), 0int,
    {
        let ghost n0 = self.log().len();
        let ghost toks = self.toks();
        self.expect(TokenKind::Lt);
        let mut params: Vec<GenericParam> = Vec::new();
        loop
            invariant
                self.moved_on(old(self)),
                self.at() > old(self).at(),
                toks == old(self).toks(),
                n0 == old(self).log().len(),
                params@.len() == 0 ==> self.at() == old(self).at() + 1 && self.log() == old(self).log(),
                toks[old(self).at() + 1].kind == TokenKind::Gt ==> params@.len() == 0,
                params@.len() > 0 && self.log().len() == n0 ==> toks[old(self).at() + 1].kind == TokenKind::Identifier
                    && params@[0].name@ == toks[old(self).at() + 1].lexeme@,
            decreases self.toks().len() - self.at(),
        {
            if self.check(TokenKind::Gt) {
                break;
            }
            let before = self.position();
            let start = self.current_span();
            let name = self.expect_identifier("type parameter name");
            let ghost n1 = self.log().len();
            let bounds = if self.match_token(TokenKind::Colon) {
                let first = self.parse_type()?;
                let mut b = vec![first];
                while self.match_token(TokenKind::Plus)
                    invariant
                        self.moved_on(old(self)),
                        self.log().len() >= n1,
                        toks == old(self).toks(),
                        toks[old(self).at() + 1].kind != TokenKind::Gt,
                        self.at() > old(self).at(),
                        self.at() >= before,
                    decreases self.toks().len() - self.at(),
                {
                    b.push(self.parse_type()?);
                }
                b
            } else {
                Vec::new()
            };
            let end = self.previous_span();
            params.push(GenericParam { name, bounds, span: start.merge(end) });
            if !self.match_token(TokenKind::Comma) {
                break;
            }
        }
        self.expect(TokenKind::Gt);
        Ok(params)
    }

    /// Parse the body of a block (after the `=>`): statements up to `end`.
    pub(crate) fn parse_block_body(&mut self, start: Span) -> (r: Result<Block, Diagnostic>)
        requires
            old(self).wf(),
        ensures
            final(self).moved_on(old(self)),
            fails_with_error(r),
            r is Ok && final(self).log().len() == old(self).log().len() ==> old(self).toks()[final(self).at() - 1].kind == TokenKind::End
                && r->Ok_0.span == start.spec_merge(old(self).toks()[final(self).at() - 1].span),
            old(self).toks()[skip_newlines_from(old(self).toks(), old(self).at() as int)].kind == TokenKind::End ==> {
                &&& r matches Ok(b) && b.stmts@.len() == 0
                &&& final(self).log() == old(self).log()
                &&& final(self).at() == skip_newlines_from(old(self).toks(), old(self).at() as int) + 1
            },
        decreases old(self).toks().len() - old(self).at(), 100int,
    {
        let ghost n0 = self.log().len();
        let ghost toks = self.toks();
        let mut stmts = Vec::new();
        self.skip_newlines();
        let ghost p1 = self.at();
        while !self.check(TokenKind::End) && !self.at_end()
            invariant
                toks == old(self).toks(),
                p1 == skip_newlines_from(old(self).toks(), old(self).at() as int),
                toks[p1 as int].kind == TokenKind::End ==> self.at() == p1 && stmts@.len() == 0 && self.log() == old(self).log(),
                self.moved_on(old(self)),
            decreases self.toks().len() - self.at(),
        {
            let before = self.position();
            let stmt = self.parse_stmt()?;
            stmts.push(stmt);
            self.skip_newlines();
            if self.position() == before {
                break;
            }
        }
        let end = self.current_span();
        self.expect(TokenKind::End);
        Ok(Block { stmts, span: start.merge(end) })
    }

    // -- Structs --

    #[verifier::spinoff_prover]
    fn parse_struct_decl(&mut self) -> (r: Result<StructDecl, Diagnostic>)
        requires
            old(self).wf(),
            old(self).cur().kind == TokenKind::Struct,
        ensures
            final(self).moved_on(old(self)),
            fails_with_error(r),
            r is Ok && final(self).log().len() == old(self).log().len() ==> {
                &&& old(self).toks()[old(self).at() + 1].kind == TokenKind::Identifier
                &&& r->Ok_0.name@ == old(self).toks()[old(self).at() + 1].lexeme@
                &&& old(self).toks()[final(self).at() - 1].kind == TokenKind::End
            },
            r is Ok && final(self).log().len() == old(self).log().len() ==> fields_before(
                old(self).toks(),
                final(self).at() - 1,
                r->Ok_0.fields@,
            ),
        decreases old(self).toks().len() - old(self).at(), 0int,
    {
        let ghost toks = self.toks();
        let ghost n0 = self.log().len();
        let start = self.current_span();
        self.expect(TokenKind::Struct);
        let name = self.expect_identifier("struct name");
        let generics = if self.check(TokenKind::Lt) {
            self.parse_generic_params()?
        } else {
            Vec::new()
        };
        self.expect(TokenKind::FatArrow);
        self.skip_newlines();
        let ghost j = self.at() as int;
        let ghost n1 = self.log().len();
        assert(toks[old(self).at() + 1].kind != TokenKind::Identifier ==> n1 > n0);
        let mut fields: Vec<FieldDecl> = Vec::new();
        while !self.check(TokenKind::End) && !self.at_end()
            invariant
                self.moved_on(old(self)),
                n1 <= self.log().len(),
                self.at() > old(self).at(),
                toks == old(self).toks(),
                n0 == old(self).log().len(),
                self.log().len() == n0 ==> fields_declared(toks, j, self.at() as int, fields@),
            decreases self.toks().len() - self.at(),
        {
            let before = self.position();
            let ghost m = self.at() as int;
            let ghost fs0 = fields@;
            let field_start = self.current_span();
            let field_name = self.expect_identifier("field name");
            self.expect(TokenKind::Colon);
            let field_type = match self.parse_type() {
                Ok(t) => t,
                Err(d) => return Err(d),
            };
            let ghost q = self.at() as int;
            let field_end = self.previous_span();
            let field = FieldDecl { name: field_name, type_expr: field_type, span: field_start.merge(field_end) };
            proof {
                if self.log().len() == n0 {
                    assert(field_decl_from(toks, m, q, field));
                }
            }
            let ghost fv = field;
            fields.push(field);
            self.skip_newlines();
            proof {
                if self.log().len() == n0 {
                    lemma_fields_declared_push(toks, j, m, q, fs0, fv);
                }
            }
            if self.position() == before {
                break;
            }
        }
        let end = self.current_span();
        self.expect(TokenKind::End);
        let decl = StructDecl { name, generics, fields, is_pub: false, span: start.merge(end) };
        proof {
            if self.log().len() == n0 {
                assert(fields_declared(toks, j, self.at() - 1, decl.fields@));
                assert(fields_before(toks, self.at() - 1, decl.fields@));
            }
        }
        Ok(decl)
    }

    // -- Enums --

    fn parse_enum_decl(&mut self) -> (r: Result<EnumDecl, Diagnostic>)
        requires
            old(self).wf(),
            old(self).cur().kind == TokenKind::Enum,
        ensures
            final(self).moved_on(old(self)),
            fails_with_error(r),
            r is Ok && final(self).log().len() == old(self).log().len() ==> decl_head(
                old(self).toks(),
                old(self).at() as int,
                final(self).at() as int,
                r->Ok_0.name,
                r->Ok_0.span,
            ),
        decreases old(self).toks().len() - old(self).at(), 0int,
    {
        let ghost n0 = self.log().len();
        let ghost toks = self.toks();
        let start = self.current_span();
        self.expect(TokenKind::Enum);
        let name = self.expect_identifier("enum name");
        let ghost n1 = self.log().len();
        assert(toks[old(self).at() + 1].kind != TokenKind::Identifier ==> n1 > n0);
        let generics = if self.check(TokenKind::Lt) {
            self.parse_generic_params()?
        } else {
            Vec::new()
        };
        self.expect(TokenKind::FatArrow);
        self.skip_newlines();
        let mut variants = Vec::new();
        while !self.check(TokenKind::End) && !self.at_end()
            invariant
                n1 <= self.log().len(),
                self.moved_on(old(self)),
                self.at() > old(self).at(),
            decreases self.toks().len() - self.at(),
        {
            let before = self.position();
            let var_start = self.current_span();
            let var_name = self.expect_identifier("variant name");
            let fields = if self.match_token(TokenKind::LParen) {
                let mut f = Vec::new();
                loop
                    invariant
                        n1 <= self.log().len(),
                        self.moved_on(old(self)),
                        self.at() > old(self).at(),
                        self.at() >= before,
                    decreases self.toks().len() - self.at(),
                {
                    if self.check(TokenKind::RParen) {
                        break;
                    }
                    let f_start = self.current_span();
                    let f_name = self.expect_identifier("field name");
                    self.expect(TokenKind::Colon);
                    let f_type = self.parse_type()?;
                    let f_end = self.previous_span();
                    f.push(FieldDecl { name: f_name, type_expr: f_type, span: f_start.merge(f_end) });
                    if !self.match_token(TokenKind::Comma) {
                        break;
                    }
                }
                self.expect(TokenKind::RParen);
                f
            } else {
                Vec::new()
            };
            let var_end = self.previous_span();
            variants.push(VariantDecl { name: var_name, fields, span: var_start.merge(var_end) });
            self.skip_newlines();
            if self.position() == before {
                break;
            }
        }
        let end = self.current_span();
        self.expect(TokenKind::End);
        Ok(EnumDecl { name, generics, variants, is_pub: false, span: start.merge(end) })
    }

    // -- Abilities --

    fn parse_ability_decl(&mut self) -> (r: Result<AbilityDecl, Diagnostic>)
        requires
            old(self).wf(),
            old(self).cur().kind == TokenKind::Ability,
        ensures
            final(self).moved_on(old(self)),
            fails_with_error(r),
            r is Ok && final(self).log().len() == old(self).log().len() ==> decl_head(
                old(self).toks(),
                old(self).at() as int,
                final(self).at() as int,
                r->Ok_0.name,
                r->Ok_0.span,
            ),
        decreases old(self).toks().len() - old(self).at(), 0int,
    {
        let ghost n0 = self.log().len();
        let ghost toks = self.toks();
        let start = self.current_span();
        self.expect(TokenKind::Ability);
        let name = self.expect_identifier("ability name");
        let ghost n1 = self.log().len();
        assert(toks[old(self).at() + 1].kind != TokenKind::Identifier ==> n1 > n0);
        let generics = if self.check(TokenKind::Lt) {
            self.parse_generic_params()?
        } else {
            Vec::new()
        };
        self.expect(TokenKind::FatArrow);
        self.skip_newlines();
        let mut methods = Vec::new();
        let mut constants = Vec::new();
        while !self.check(TokenKind::End) && !self.at_end()
            invariant
                n1 <= self.log().len(),
                self.moved_on(old(self)),
                self.at() > old(self).at(),
            decreases self.toks().len() - self.at(),
        {
            let before = self.position();
            self.skip_newlines();
            if self.check(TokenKind::End) {
                break;
            }
            let annotations = self.parse_annotations();
            if self.check(TokenKind::Const) {
                let c = self.parse_const_decl()?;
                constants.push(c);
            } else if self.check(TokenKind::Op) {
                let mut f = self.parse_function()?;
                f.annotations = annotations;
                methods.push(f);
            } else {
                return Err(
                    self.error(String::from_str("expected 'op' or 'const' in ability declaration")),
                );
            }
            self.skip_newlines();
            if self.position() == before {
                break;
            }
        }
        let end = self.current_span();
        self.expect(TokenKind::End);
        Ok(AbilityDecl { name, generics, methods, constants, is_pub: false, span: start.merge(end) })
    }

    // -- Impl blocks --

    fn parse_impl_block(&mut self) -> (r: Result<ImplBlock, Diagnostic>)
        requires
            old(self).wf(),
            old(self).cur().kind == TokenKind::Impl,
        ensures
            final(self).moved_on(old(self)),
            fails_with_error(r),
            r is Ok && final(self).log().len() == old(self).log().len() ==> impl_head(old(self).toks(), old(self).at() as int, r->Ok_0.ability, r->Ok_0.target),
            r is Ok && final(self).log().len() == old(self).log().len() ==> old(self).toks()[final(self).at() - 1].kind == TokenKind::End,
            r is Ok && final(self).log().len() == old(self).log().len() ==> r->Ok_0.span == old(self).toks()[old(self).at() as int].span.spec_merge(
                old(self).toks()[final(self).at() - 1].span,
            ),
        decreases old(self).toks().len() - old(self).at(), 0int,
    {
        let ghost n0 = self.log().len();
        let ghost toks = self.toks();
        let start = self.current_span();
        self.expect(TokenKind::Impl);
        let first_name = self.expect_identifier("type or ability name");
        let (ability, target) = if self.match_token(TokenKind::For) {
            let target = self.expect_identifier("type name");
            (Some(first_name), target)
        } else {
            (None, first_name)
        };
        let ghost n1 = self.log().len();
        assert(!impl_head(toks, old(self).at() as int, ability, target) ==> n1 > n0);
        self.expect(TokenKind::FatArrow);
        self.skip_newlines();
        let mut methods = Vec::new();
        while !self.check(TokenKind::End) && !self.at_end()
            invariant
                n1 <= self.log().len(),
                self.moved_on(old(self)),
                self.at() > old(self).at(),
            decreases self.toks().len() - self.at(),
        {
            let before = self.position();
            self.skip_newlines();
            if self.check(TokenKind::End) {
                break;
            }
            let annotations = self.parse_annotations();
            let mut f = self.parse_function()?;
            f.annotations = annotations;
            methods.push(f);
            self.skip_newlines();
            if self.position() == before {
                break;
            }
        }
        let end = self.current_span();
        self.expect(TokenKind::End);
        Ok(ImplBlock { ability, target, methods, span: start.merge(end) })
    }

    // -- Constants --

    fn parse_const_decl(&mut self) -> (r: Result<ConstDecl, Diagnostic>)
        requires
            old(self).wf(),
            old(self).cur().kind == TokenKind::Const,
        ensures
            final(self).moved_on(old(self)),
            final(self).at() > old(self).at(),
            fails_with_error(r),
        decreases old(self).toks().len() - old(self).at(), 0int,
    {
        let start = self.current_span();
        self.expect(TokenKind::Const);
        let name = self.expect_identifier("constant name");
        let type_expr = if self.match_token(TokenKind::Colon) {
            Some(self.parse_type()?)
        } else {
            None
        };
        self.expect(TokenKind::Assign);
        let value = self.parse_expr()?;
        let end = self.previous_span();
        Ok(ConstDecl { name, type_expr, value, is_pub: false, span: start.merge(end) })
    }

    // -- Tasks --

    fn parse_task_decl(&mut self) -> (r: Result<TaskDecl, Diagnostic>)
        requires
            old(self).wf(),
            old(self).cur().kind == TokenKind::Task,
        ensures
            final(self).moved_on(old(self)),
            fails_with_error(r),
            r is Ok && final(self).log().len() == old(self).log().len() ==> decl_head(
                old(self).toks(),
                old(self).at() as int,
                final(self).at() as int,
                r->Ok_0.name,
                r->Ok_0.span,
            ),
        decreases old(self).toks().len() - old(self).at(), 0int,
    {
        let ghost n0 = self.log().len();
        let ghost toks = self.toks();
        let start = self.current_span();
        self.expect(TokenKind::Task);
        let name = self.expect_identifier("task name");
        let ghost n1 = self.log().len();
        assert(toks[old(self).at() + 1].kind != TokenKind::Identifier ==> n1 > n0);
        self.expect(TokenKind::FatArrow);
        self.skip_newlines();
        let mut entries = Vec::new();
        while !self.check(TokenKind::End) && !self.at_end()
            invariant
                n1 <= self.log().len(),
                self.moved_on(old(self)),
                self.at() > old(self).at(),
            decreases self.toks().len() - self.at(),
        {
            let before = self.position();
            self.skip_newlines();
            if self.check(TokenKind::End) {
                break;
            }
            let annotations = self.parse_annotations();
            let entry_start = self.current_span();
            self.expect(TokenKind::Op);
            let entry_name = self.expect_identifier("entry name");
            self.expect(TokenKind::LParen);
            let params = self.parse_params()?;
            self.expect(TokenKind::RParen);
            let return_type = if self.match_token(TokenKind::Arrow) {
                Some(self.parse_type()?)
            } else {
                None
            };
            let entry_end = self.previous_span();
            entries.push(
                TaskEntry {
                    name: entry_name,
                    annotations,
                    params,
                    return_type,
                    span: entry_start.merge(entry_end),
                },
            );
            self.skip_newlines();
            if self.position() == before {
                break;
            }
        }
        let end = self.current_span();
        self.expect(TokenKind::End);
        Ok(TaskDecl { name, entries, is_pub: false, span: start.merge(end) })
    }

    fn parse_task_body(&mut self) -> (r: Result<TaskBodyDecl, Diagnostic>)
        requires
            old(self).wf(),
            old(self).cur().kind == TokenKind::Task,
        ensures
            final(self).moved_on(old(self)),
            fails_with_error(r),
            r is Ok && final(self).log().len() == old(self).log().len() ==> {
                let toks = old(self).toks();
                let i = old(self).at() as int;
                &&& toks[i + 1].kind == TokenKind::Body
                &&& toks[i + 2].kind == TokenKind::Identifier
                &&& r->Ok_0.name@ == toks[i + 2].lexeme@
                &&& toks[i + 3].kind == TokenKind::LParen
                &&& toks[final(self).at() - 1].kind == TokenKind::End
            },
            r is Ok ==> r->Ok_0.span == old(self).toks()[old(self).at() as int].span.spec_merge(
                old(self).toks()[final(self).at() - 1].span,
            ),
        decreases old(self).toks().len() - old(self).at(), 0int,
    {
        let ghost n0 = self.log().len();
        let ghost toks = self.toks();
        let start = self.current_span();
        self.expect(TokenKind::Task);
        let ghost a1 = self.at();
        assert(a1 > old(self).at());
        self.expect(TokenKind::Body);
        let name = self.expect_identifier("task name");
        self.expect(TokenKind::LParen);
        let ghost n1 = self.log().len();
        assert(n1 == n0 ==> toks[old(self).at() + 1].kind == TokenKind::Body && toks[old(self).at() + 2].kind
            == TokenKind::Identifier && name@ == toks[old(self).at() + 2].lexeme@ && toks[old(self).at() + 3].kind
            == TokenKind::LParen);
        let params = self.parse_params()?;
        self.expect(TokenKind::RParen);
        self.expect(TokenKind::FatArrow);
        assert(self.at() >= a1);
        let body = self.parse_block_body(start)?;
        Ok(TaskBodyDecl { name, params, body, span: start.merge(self.previous_span()) })
    }

    // -- Protected objects --

    fn parse_protected_decl(&mut self) -> (r: Result<ProtectedBlock, Diagnostic>)
        requires
            old(self).wf(),
            old(self).cur().kind == TokenKind::Protected,
        ensures
            final(self).moved_on(old(self)),
            fails_with_error(r),
            r is Ok && final(self).log().len() == old(self).log().len() ==> decl_head(
                old(self).toks(),
                old(self).at() as int,
                final(self).at() as int,
                r->Ok_0.name,
                r->Ok_0.span,
            ),
        decreases old(self).toks().len() - old(self).at(), 0int,
    {
        let ghost n0 = self.log().len();
        let ghost toks = self.toks();
        let start = self.current_span();
        self.expect(TokenKind::Protected);
        let name = self.expect_identifier("protected object name");
        let ghost n1 = self.log().len();
        assert(toks[old(self).at() + 1].kind != TokenKind::Identifier ==> n1 > n0);
        self.expect(TokenKind::FatArrow);
        self.skip_newlines();
        let mut fields = Vec::new();
        let mut methods = Vec::new();
        while !self.check(TokenKind::End) && !self.at_end()
            invariant
                n1 <= self.log().len(),
                self.moved_on(old(self)),
                self.at() > old(self).at(),
            decreases self.toks().len() - self.at(),
        {
            let before = self.position();
            self.skip_newlines();
            if self.check(TokenKind::End) {
                break;
            }
            if self.check(TokenKind::Var) {
                let f_start = self.current_span();
                self.advance();
                let f_name = self.expect_identifier("field name");
                self.expect(TokenKind::Colon);
                let f_type = self.parse_type()?;
                self.expect(TokenKind::Assign);
                let default = self.parse_expr()?;
                let f_end = self.previous_span();
                fields.push(
                    ProtectedField {
                        name: f_name,
                        type_expr: f_type,
                        default,
                        span: f_start.merge(f_end),
                    },
                );
            } else {
                let annotations = self.parse_annotations();
                let mut f = self.parse_function()?;
                f.annotations = annotations;
                methods.push(f);
            }
            self.skip_newlines();
            if self.position() == before {
                break;
            }
        }
        let end = self.current_span();
        self.expect(TokenKind::End);
        Ok(ProtectedBlock { name, fields, methods, is_pub: false, span: start.merge(end) })
    }

    // -- Units --

    fn parse_unit_decl(&mut self) -> (u: UnitDeclNode)
        requires
            old(self).wf(),
        ensures
            final(self).moved_on(old(self)),
            final(self).toks()[final(self).at() as int].kind == TokenKind::Newline || final(self).cur().kind
                == TokenKind::Eof,
            final(self).log().len() == old(self).log().len() ==> {
                let toks = old(self).toks();
                let i = old(self).at() as int;
                &&& toks[i + 1].kind == TokenKind::Identifier
                &&& u.name@ == toks[i + 1].lexeme@
                &&& toks[i + 2].kind == TokenKind::Assign
                &&& u.definition@ == spaced_lexemes(toks, i + 3, final(self).at() as int)
            },
    {
        proof {
            reveal_strlit(" ");
        }
        let ghost n0 = self.log().len();
        let ghost toks = self.toks();
        let start = self.current_span();
        self.expect(TokenKind::Unit);
        let name = self.expect_identifier("unit name");
        self.expect(TokenKind::Assign);
        // the rest of the line is the unit's definition
        let def_start = self.position();
        let ghost m1 = self.log().len();
        assert(m1 == n0 ==> def_start == old(self).at() + 3 && toks[old(self).at() + 1].kind
            == TokenKind::Identifier && name@ == toks[old(self).at() + 1].lexeme@ && toks[old(self).at() + 2].kind
            == TokenKind::Assign);
        while !self.check(TokenKind::Newline) && !self.at_end()
            invariant
                self.moved_on(old(self)),
                def_start <= self.at(),
                m1 <= self.log().len(),
            decreases self.toks().len() - self.at(),
        {
            self.advance();
        }
        let mut definition = String::new();
        let mut i = def_start;
        while i < self.position()
            invariant
                self.wf(),
                def_start <= i <= self.at(),
                definition@ == spaced_lexemes(self.toks(), def_start as int, i as int),
            decreases self.at() - i,
        {
            if i > def_start {
                definition.append(" ");
            }
            definition.append(self.token_at(i).lexeme.as_str());
            i = i + 1;
        }
        let end = self.previous_span();
        UnitDeclNode { name, definition, span: start.merge(end) }
    }

    // -- Extern --

    fn parse_extern_block(&mut self) -> (r: Result<ExternBlock, Diagnostic>)
        requires
            old(self).wf(),
            old(self).cur().kind == TokenKind::Extern,
        ensures
            final(self).moved_on(old(self)),
            fails_with_error(r),
            r is Ok ==> (if old(self).toks()[old(self).at() + 1].kind == TokenKind::StringLiteral {
                r->Ok_0.abi@ == trim_quotes(old(self).toks()[old(self).at() + 1].lexeme@)
            } else {
                r->Ok_0.abi@ == "C"@
            }),
            r is Ok && final(self).log().len() == old(self).log().len() ==> old(self).toks()[final(self).at() - 1].kind == TokenKind::End
                && r->Ok_0.span == old(self).toks()[old(self).at() as int].span.spec_merge(old(self).toks()[final(self).at() - 1].span),
        decreases old(self).toks().len() - old(self).at(), 0int,
    {
        proof {
            reveal_strlit("C");
        }
        let start = self.current_span();
        self.expect(TokenKind::Extern);
        let abi = if self.check(TokenKind::StringLiteral) {
            let s = self.current().lexeme.clone();
            self.advance();
            trim_quote_marks(s.as_str())
        } else {
            String::from_str("C")
        };
        self.expect(TokenKind::FatArrow);
        self.skip_newlines();
        let mut functions = Vec::new();
        while !self.check(TokenKind::End) && !self.at_end()
            invariant
                self.moved_on(old(self)),
                self.at() > old(self).at(),
            decreases self.toks().len() - self.at(),
        {
            let before = self.position();
            self.skip_newlines();
            if self.check(TokenKind::End) {
                break;
            }
            let f = self.parse_function()?;
            functions.push(f);
            self.skip_newlines();
            if self.position() == before {
                break;
            }
        }
        let end = self.current_span();
        self.expect(TokenKind::End);
        Ok(ExternBlock { abi, functions, span: start.merge(end) })
    }

    // -- Static assert --

    fn parse_static_assert(&mut self) -> (r: Result<StaticAssertNode, Diagnostic>)
        requires
            old(self).wf(),
            old(self).cur().kind == TokenKind::StaticAssert,
        ensures
            final(self).moved_on(old(self)),
            fails_with_error(r),
            r is Ok && final(self).log().len() == old(self).log().len() ==> old(self).toks()[old(self).at() + 1].kind == TokenKind::LParen
                && old(self).toks()[final(self).at() - 1].kind == TokenKind::RParen,
            r is Ok ==> r->Ok_0.span == old(self).toks()[old(self).at() as int].span.spec_merge(
                old(self).toks()[final(self).at() - 1].span,
            ),
        decreases old(self).toks().len() - old(self).at(), 0int,
    {
        let ghost n0 = self.log().len();
        let ghost toks = self.toks();
        let start = self.current_span();
        self.expect(TokenKind::StaticAssert);
        self.expect(TokenKind::LParen);
        let ghost n1 = self.log().len();
        assert(n1 == n0 ==> toks[old(self).at() + 1].kind == TokenKind::LParen);
        let condition = self.parse_expr()?;
        let message = if self.match_token(TokenKind::Comma) {
            if self.check(TokenKind::StringLiteral) {
                let s = self.current().lexeme.clone();
                self.advance();
                Some(trim_quote_marks(s.as_str()))
            } else {
                None
            }
        } else {
            None
        };
        self.expect(TokenKind::RParen);
        let end = self.previous_span();
        Ok(StaticAssertNode { condition, message, span: start.merge(end) })
    }
}

} // verus!
