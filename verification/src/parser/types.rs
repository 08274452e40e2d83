//! Type expression parsing: named types, generics, unit-annotated types,
//! arrays, tuples, references and qualified paths.

use vstd::prelude::*;
use vstd::string::*;
use crate::lexer::{Token, TokenKind};
use crate::ast::TypeExpr;
use crate::ast::nodes::type_expr_span;
use crate::diagnostics::{Diagnostic, Span};
use crate::text::char_is_lowercase;
use super::state::{Parser, fails_with_error};
use super::pattern::qualified_path;

verus! {

broadcast use vstd::string::group_string_axioms;

/// `s` surely starts with a lower-case letter: an ASCII one.
pub open spec fn surely_lower(s: Seq<char>) -> bool {
    s.len() > 0 && (s[0] as u32) < 128 && 'a' <= s[0] <= 'z'
}

/// `s` surely does not start with a lower-case letter: it is empty or
/// starts with another ASCII character.
pub open spec fn surely_not_lower(s: Seq<char>) -> bool {
    s.len() == 0 || ((s[0] as u32) < 128 && !('a' <= s[0] <= 'z'))
}

/// At `p` stands `<`, a name that surely starts with a lower-case letter,
/// and `>`: a unit annotation.
pub open spec fn unit_annotation_at(toks: Seq<Token>, p: int) -> bool {
    &&& toks[p].kind == TokenKind::Lt
    &&& toks[p + 1].kind == TokenKind::Identifier
    &&& surely_lower(toks[p + 1].lexeme@)
    &&& toks[p + 2].kind == TokenKind::Gt
}

/// The tokens from `i` up to (not including) `e` spell the type `t`, with
/// the spans that the parser gives it. The size of an array type is the
/// expression between its `;` and its `]`.
pub open spec fn type_from(toks: Seq<Token>, i: int, e: int, t: TypeExpr) -> bool
    decreases t, 0int,
{
    let k0 = toks[i].kind;
    &&& 0 <= i < e <= toks.len()
    &&& match t {
        TypeExpr::Reference { inner, is_mut, span } => {
            &&& if is_mut {
                k0 == TokenKind::Mut && toks[i + 1].kind == TokenKind::Ref
            } else {
                k0 == TokenKind::Ref
            }
            &&& span == toks[i].span.spec_merge(type_expr_span(*inner))
            &&& type_from(toks, if is_mut { i + 2 } else { i + 1 }, e, *inner)
        },
        TypeExpr::Array { element, span, .. } => {
            &&& k0 == TokenKind::LBracket
            &&& toks[e - 1].kind == TokenKind::RBracket
            &&& span == toks[i].span.spec_merge(toks[e - 1].span)
            &&& exists|k: int|
                #![trigger toks[k]]
                {
                    &&& type_from(toks, i + 1, k, *element)
                    &&& toks[k].kind == TokenKind::Semicolon
                    &&& k + 1 <= e - 1
                }
        },
        TypeExpr::Tuple { elements, span } => {
            &&& k0 == TokenKind::LParen
            &&& i + 1 <= e - 1
            &&& toks[e - 1].kind == TokenKind::RParen
            &&& span == toks[i].span.spec_merge(toks[e - 1].span)
            &&& types_listed(toks, i + 1, e - 1, elements@)
        },
        TypeExpr::SelfType { span } => k0 == TokenKind::SelfUpper && e == i + 1 && span == toks[i].span,
        TypeExpr::Named { name, generics, span } => {
            &&& k0 == TokenKind::Identifier
            &&& name@ == toks[i].lexeme@
            &&& toks[i + 1].kind != TokenKind::ColonColon
            &&& if toks[i + 1].kind == TokenKind::Lt {
                &&& !unit_annotation_at(toks, i + 1)
                &&& i + 2 <= e - 1
                &&& toks[e - 1].kind == TokenKind::Gt
                &&& span == toks[i].span.spec_merge(toks[e - 1].span)
                &&& types_listed(toks, i + 2, e - 1, generics@)
            } else {
                e == i + 1 && generics@.len() == 0 && span == toks[i].span
            }
        },
        TypeExpr::UnitType { base, unit, span } => {
            &&& k0 == TokenKind::Identifier
            &&& base@ == toks[i].lexeme@
            &&& toks[i + 1].kind == TokenKind::Lt
            &&& toks[i + 2].kind == TokenKind::Identifier
            &&& unit@ == toks[i + 2].lexeme@
            &&& !surely_not_lower(unit@)
            &&& toks[i + 3].kind == TokenKind::Gt
            &&& e == i + 4
            &&& span == toks[i].span.spec_merge(toks[i + 3].span)
        },
        TypeExpr::Path { segments, generics, span } => {
            let q = i + 2 * segments@.len() - 1;
            &&& k0 == TokenKind::Identifier
            &&& toks[i + 1].kind == TokenKind::ColonColon
            &&& qualified_path(toks, i, segments@)
            &&& span == toks[i].span.spec_merge(toks[e - 1].span)
            &&& if toks[q].kind == TokenKind::Lt {
                &&& q + 1 <= e - 1
                &&& toks[e - 1].kind == TokenKind::Gt
                &&& types_listed(toks, q + 1, e - 1, generics@)
            } else {
                generics@.len() == 0 && e == q
            }
        },
        _ => false,
    }
}

/// The tokens from `j` up to `k` spell the types `ts`, each followed by a
/// comma.
pub open spec fn types_commaed(toks: Seq<Token>, j: int, k: int, ts: Seq<TypeExpr>) -> bool
    decreases ts, 1int,
{
    if ts.len() == 0 {
        k == j
    } else {
        exists|m: int|
            #![trigger toks[m]]
            {
                &&& types_commaed(toks, j, m, ts.subrange(0, ts.len() - 1))
                &&& toks[k - 1].kind == TokenKind::Comma
                &&& type_from(toks, m, k - 1, ts[ts.len() - 1])
            }
    }
}

/// The tokens from `j` up to the closing token at `c` spell the types `ts`,
/// separated by commas, with an optional comma at the end.
pub open spec fn types_listed(toks: Seq<Token>, j: int, c: int, ts: Seq<TypeExpr>) -> bool
    decreases ts, 2int,
{
    ||| types_commaed(toks, j, c, ts)
    ||| ts.len() > 0 && exists|m: int|
        #![trigger toks[m]]
        {
            &&& types_commaed(toks, j, m, ts.subrange(0, ts.len() - 1))
            &&& type_from(toks, m, c, ts[ts.len() - 1])
        }
}

/// A type and its comma extend a comma-separated run.
proof fn lemma_types_commaed_push(toks: Seq<Token>, j: int, m: int, k: int, ts: Seq<TypeExpr>, t: TypeExpr)
    requires
        types_commaed(toks, j, m, ts),
        toks[k - 1].kind == TokenKind::Comma,
        type_from(toks, m, k - 1, t),
    ensures
        types_commaed(toks, j, k, ts.push(t)),
{
    let us = ts.push(t);
    assert(us.subrange(0, us.len() - 1) =~= ts);
    assert(us[us.len() - 1] == t);
    assert(types_commaed(toks, j, m, us.subrange(0, us.len() - 1)) && toks[m] == toks[m]);
}

/// A last type closes a comma-separated run into a list.
proof fn lemma_types_listed_last(toks: Seq<Token>, j: int, m: int, c: int, ts: Seq<TypeExpr>, t: TypeExpr)
    requires
        types_commaed(toks, j, m, ts),
        type_from(toks, m, c, t),
    ensures
        types_listed(toks, j, c, ts.push(t)),
{
    let us = ts.push(t);
    assert(us.subrange(0, us.len() - 1) =~= ts);
    assert(us[us.len() - 1] == t);
    assert(types_commaed(toks, j, m, us.subrange(0, us.len() - 1)) && toks[m] == toks[m]);
}

impl Parser {
    /// Parse a type expression. When it records no error, the type it gives
    /// is the one that the tokens it read spell.
    pub(crate) fn parse_type(&mut self) -> (r: Result<TypeExpr, Diagnostic>)
        requires
            old(self).wf(),
        ensures
            final(self).moved_on(old(self)),
            fails_with_error(r),
            r is Ok && final(self).log().len() == old(self).log().len() ==> type_from(
                old(self).toks(),
                old(self).at() as int,
                final(self).at() as int,
                r->Ok_0,
            ),
        decreases old(self).toks().len() - old(self).at(), 40int,
    {
        if self.check(TokenKind::Ref) {
            return self.parse_ref_type(false);
        }
        if self.check(TokenKind::Mut) && self.peek_ahead(1) == TokenKind::Ref {
            return self.parse_ref_type(true);
        }
        if self.check(TokenKind::LBracket) {
            return self.parse_array_type();
        }
        if self.check(TokenKind::LParen) {
            return self.parse_tuple_type();
        }
        if self.check(TokenKind::SelfUpper) {
            let span = self.current_span();
            self.advance();
            return Ok(TypeExpr::SelfType { span });
        }
        self.parse_named_type()
    }

    fn parse_named_type(&mut self) -> (r: Result<TypeExpr, Diagnostic>)
        requires
            old(self).wf(),
        ensures
            final(self).moved_on(old(self)),
            fails_with_error(r),
            r is Ok && final(self).log().len() == old(self).log().len() ==> type_from(
                old(self).toks(),
                old(self).at() as int,
                final(self).at() as int,
                r->Ok_0,
            ),
        decreases old(self).toks().len() - old(self).at(), 35int,
    {
        let ghost toks = self.toks();
        let ghost i = self.at() as int;
        let ghost n0 = self.log().len();
        let start = self.current_span();
        let name = self.expect_identifier("type name");
        // a qualified path: Module::Type
        if self.check(TokenKind::ColonColon) {
            let mut segments = vec![name];
            while self.match_token(TokenKind::ColonColon)
                invariant
                    self.moved_on(old(self)),
                    toks == old(self).toks(),
                    n0 == old(self).log().len(),
                    i == old(self).at(),
                    segments@.len() >= 1,
                    self.log().len() == n0 ==> {
                        &&& segments@[0]@ == toks[i].lexeme@
                        &&& toks[i].kind == TokenKind::Identifier
                        &&& self.at() == i + 2 * segments@.len() - 1
                        &&& forall|k: int|
                            1 <= k < segments@.len() ==> {
                                &&& (#[trigger] toks[i + 2 * k - 1]).kind == TokenKind::ColonColon
                                &&& toks[i + 2 * k].kind == TokenKind::Identifier
                                &&& segments@[k]@ == toks[i + 2 * k].lexeme@
                            }
                    },
                decreases self.toks().len() - self.at(),
            {
                let ghost before = segments@;
                let ghost cc = self.at() as int - 1;
                let segment = self.expect_identifier("type path segment");
                segments.push(segment);
                proof {
                    if self.log().len() == n0 {
                        assert forall|k: int| 1 <= k < segments@.len() implies {
                            &&& (#[trigger] toks[i + 2 * k - 1]).kind == TokenKind::ColonColon
                            &&& toks[i + 2 * k].kind == TokenKind::Identifier
                            &&& segments@[k]@ == toks[i + 2 * k].lexeme@
                        } by {
                            if k < segments@.len() - 1 {
                                assert(segments@[k] == before[k]);
                            } else {
                                assert(i + 2 * k - 1 == cc);
                            }
                        }
                    }
                }
            }
            let ghost q = self.at() as int;
            let generics = if self.check(TokenKind::Lt) {
                match self.parse_type_args() {
                    Ok(g) => g,
                    Err(d) => return Err(d),
                }
            } else {
                Vec::new()
            };
            let end = self.previous_span();
            proof {
                if self.log().len() == n0 {
                    assert(qualified_path(toks, i, segments@));
                }
            }
            return Ok(TypeExpr::Path { segments, generics, span: start.merge(end) });
        }
        // generic arguments, or a unit annotation: Type<...>
        if self.check(TokenKind::Lt) {
            let saved_pos = self.position();
            match self.try_parse_unit_annotation(name.as_str(), start) {
                Some(unit_type) => {
                    return Ok(unit_type);
                },
                None => {
                    self.rewind(saved_pos);
                    let generics = match self.parse_type_args() {
                        Ok(g) => g,
                        Err(d) => return Err(d),
                    };
                    let end = self.previous_span();
                    return Ok(TypeExpr::Named { name, generics, span: start.merge(end) });
                },
            }
        }
        Ok(TypeExpr::Named { name, generics: Vec::new(), span: start })
    }

    /// A unit annotation `<unit>`, where `unit` is one identifier that
    /// starts with a lower-case letter; otherwise nothing, at the position
    /// where the attempt began.
    fn try_parse_unit_annotation(&mut self, base: &str, start: Span) -> (r: Option<TypeExpr>)
        requires
            old(self).wf(),
        ensures
            final(self).moved_on(old(self)),
            final(self).log() == old(self).log(),
            r is None ==> final(self).at() == old(self).at(),
            r is None && old(self).cur().kind == TokenKind::Lt ==> !unit_annotation_at(
                old(self).toks(),
                old(self).at() as int,
            ),
            r matches Some(t) ==> {
                let toks = old(self).toks();
                let p = old(self).at() as int;
                &&& final(self).at() == p + 3
                &&& toks[p].kind == TokenKind::Lt
                &&& toks[p + 1].kind == TokenKind::Identifier
                &&& !surely_not_lower(toks[p + 1].lexeme@)
                &&& toks[p + 2].kind == TokenKind::Gt
                &&& t matches TypeExpr::UnitType { base: b, unit, span } && b@ == base@ && unit@ == toks[p
                    + 1].lexeme@ && span == start.spec_merge(toks[p + 2].span)
            },
    {
        if self.check(TokenKind::Lt) {
            let saved = self.position();
            self.advance();
            if self.check(TokenKind::Identifier) {
                let ident = self.current().lexeme.clone();
                let lower = ident.as_str().unicode_len() > 0 && char_is_lowercase(
                    ident.as_str().get_char(0),
                );
                if lower {
                    self.advance();
                    if self.check(TokenKind::Gt) {
                        self.advance();
                        return Some(
                            TypeExpr::UnitType {
                                base: String::from_str(base),
                                unit: ident,
                                span: start.merge(self.previous_span()),
                            },
                        );
                    }
                }
            }
            // not a unit annotation
            self.rewind(saved);
        }
        None
    }

    /// Parse the arguments of a generic type, from its `<` to its `>`.
    fn parse_type_args(&mut self) -> (r: Result<Vec<TypeExpr>, Diagnostic>)
        requires
            old(self).wf(),
            old(self).cur().kind == TokenKind::Lt,
        ensures
            final(self).moved_on(old(self)),
            fails_with_error(r),
            r is Ok && final(self).log().len() == old(self).log().len() ==> {
                &&& old(self).at() + 1 <= final(self).at() - 1
                &&& old(self).toks()[final(self).at() - 1].kind == TokenKind::Gt
                &&& types_listed(old(self).toks(), old(self).at() + 1, final(self).at() - 1, r->Ok_0@)
            },
        decreases old(self).toks().len() - old(self).at(), 0int,
    {
        let ghost toks = self.toks();
        let ghost n0 = self.log().len();
        self.expect(TokenKind::Lt);
        let ghost j = self.at() as int;
        let mut args: Vec<TypeExpr> = Vec::new();
        loop
            invariant_except_break
                self.log().len() == n0 ==> types_commaed(toks, j, self.at() as int, args@),
            invariant
                self.moved_on(old(self)),
                self.at() > old(self).at(),
                j <= self.at(),
                j == old(self).at() + 1,
                toks == old(self).toks(),
                n0 == old(self).log().len(),
            ensures
                self.moved_on(old(self)),
                j <= self.at(),
                j == old(self).at() + 1,
                self.log().len() == n0 ==> types_listed(toks, j, self.at() as int, args@),
            decreases self.toks().len() - self.at(),
        {
            if self.check(TokenKind::Gt) {
                break;
            }
            let ghost m = self.at() as int;
            let ghost before = args@;
            let t = match self.parse_type() {
                Ok(t) => t,
                Err(d) => return Err(d),
            };
            let ghost e1 = self.at() as int;
            let ghost tv = t;
            args.push(t);
            if !self.match_token(TokenKind::Comma) {
                proof {
                    if self.log().len() == n0 {
                        lemma_types_listed_last(toks, j, m, e1, before, tv);
                    }
                }
                break;
            }
            proof {
                if self.log().len() == n0 {
                    lemma_types_commaed_push(toks, j, m, self.at() as int, before, tv);
                }
            }
        }
        self.expect(TokenKind::Gt);
        Ok(args)
    }

    /// A reference type `ref T`, or `mut ref T` when `is_mut`.
    fn parse_ref_type(&mut self, is_mut: bool) -> (r: Result<TypeExpr, Diagnostic>)
        requires
            old(self).wf(),
            is_mut ==> old(self).cur().kind == TokenKind::Mut,
            !is_mut ==> old(self).cur().kind == TokenKind::Ref,
        ensures
            final(self).moved_on(old(self)),
            fails_with_error(r),
            r is Ok && final(self).log().len() == old(self).log().len() ==> type_from(
                old(self).toks(),
                old(self).at() as int,
                final(self).at() as int,
                r->Ok_0,
            ),
        decreases old(self).toks().len() - old(self).at(), 0int,
    {
        let start = self.current_span();
        if is_mut {
            self.expect(TokenKind::Mut);
        }
        self.expect(TokenKind::Ref);
        let inner = self.parse_type()?;
        let end = inner.span();
        Ok(TypeExpr::Reference { inner: Box::new(inner), is_mut, span: start.merge(end) })
    }

    fn parse_array_type(&mut self) -> (r: Result<TypeExpr, Diagnostic>)
        requires
            old(self).wf(),
            old(self).cur().kind == TokenKind::LBracket,
        ensures
            final(self).moved_on(old(self)),
            fails_with_error(r),
            r is Ok && final(self).log().len() == old(self).log().len() ==> type_from(
                old(self).toks(),
                old(self).at() as int,
                final(self).at() as int,
                r->Ok_0,
            ),
        decreases old(self).toks().len() - old(self).at(), 0int,
    {
        let ghost toks = self.toks();
        let start = self.current_span();
        self.expect(TokenKind::LBracket);
        let element = match self.parse_type() {
            Ok(t) => t,
            Err(d) => return Err(d),
        };
        let ghost k = self.at() as int;
        self.expect(TokenKind::Semicolon);
        let size = self.parse_expr()?;
        self.expect(TokenKind::RBracket);
        let end = self.previous_span();
        proof {
            if self.log().len() == old(self).log().len() {
                assert(toks[k] == toks[k]);
            }
        }
        Ok(TypeExpr::Array { element: Box::new(element), size: Box::new(size), span: start.merge(end) })
    }

    fn parse_tuple_type(&mut self) -> (r: Result<TypeExpr, Diagnostic>)
        requires
            old(self).wf(),
            old(self).cur().kind == TokenKind::LParen,
        ensures
            final(self).moved_on(old(self)),
            fails_with_error(r),
            r is Ok && final(self).log().len() == old(self).log().len() ==> type_from(
                old(self).toks(),
                old(self).at() as int,
                final(self).at() as int,
                r->Ok_0,
            ),
        decreases old(self).toks().len() - old(self).at(), 0int,
    {
        let ghost toks = self.toks();
        let ghost n0 = self.log().len();
        let start = self.current_span();
        self.expect(TokenKind::LParen);
        let ghost j = self.at() as int;
        let mut elements: Vec<TypeExpr> = Vec::new();
        while !self.check(TokenKind::RParen) && !self.at_end()
            invariant_except_break
                self.log().len() == n0 ==> types_commaed(toks, j, self.at() as int, elements@),
            invariant
                self.moved_on(old(self)),
                self.at() > old(self).at(),
                j <= self.at(),
                j == old(self).at() + 1,
                toks == old(self).toks(),
                n0 == old(self).log().len(),
            ensures
                self.moved_on(old(self)),
                j <= self.at(),
                j == old(self).at() + 1,
                self.log().len() == n0 ==> types_listed(toks, j, self.at() as int, elements@),
            decreases self.toks().len() - self.at(),
        {
            let ghost m = self.at() as int;
            let ghost before = elements@;
            let t = match self.parse_type() {
                Ok(t) => t,
                Err(d) => return Err(d),
            };
            let ghost e1 = self.at() as int;
            let ghost tv = t;
            elements.push(t);
            if !self.match_token(TokenKind::Comma) {
                proof {
                    if self.log().len() == n0 {
                        lemma_types_listed_last(toks, j, m, e1, before, tv);
                    }
                }
                break;
            }
            proof {
                if self.log().len() == n0 {
                    lemma_types_commaed_push(toks, j, m, self.at() as int, before, tv);
                }
            }
        }
        self.expect(TokenKind::RParen);
        let end = self.previous_span();
        Ok(TypeExpr::Tuple { elements, span: start.merge(end) })
    }
}

} // verus!
