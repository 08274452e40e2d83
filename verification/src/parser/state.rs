//! Parser state -- the token stream, the position in it and the errors found
//! so far -- with token management, error recovery and the program entry
//! point.

use vstd::prelude::*;
use vstd::string::*;
use crate::lexer::{Token, TokenKind};
use crate::lexer::token::{kind_name, spec_is_statement_start};
use crate::ast::{Program, ModuleDecl, ModulePath, ImportDecl, ImportNames};
use crate::diagnostics::{Diagnostic, DiagnosticKind, Span};
use super::decl::{empty_op_at, empty_op_end, empty_op_item};

verus! {

broadcast use vstd::string::group_string_axioms;

/// Whether the quote marks around a string or character literal's lexeme
/// can be cut off: it has at least two characters, the first and the last
/// of them ASCII.
pub open spec fn quoted_lexeme_ok(t: Token) -> bool {
    (t.kind == TokenKind::StringLiteral || t.kind == TokenKind::CharLiteral) ==> {
        &&& t.lexeme@.len() >= 2
        &&& (t.lexeme@[0] as u32) < 128
        &&& (t.lexeme@.last() as u32) < 128
    }
}

/// A token stream the parser can read: it ends with the end-of-file token,
/// and the lexemes of its string and character literals hold their quotes.
pub open spec fn stream_ok(toks: Seq<Token>) -> bool {
    &&& toks.len() > 0
    &&& toks.last().kind == TokenKind::Eof
    &&& forall|i: int| 0 <= i < toks.len() ==> quoted_lexeme_ok(#[trigger] toks[i])
}

/// Whether a token of kind `k` opens a bracket: `(`, `[` or `{`.
pub open spec fn opens_bracket(k: TokenKind) -> bool {
    k == TokenKind::LParen || k == TokenKind::LBracket || k == TokenKind::LBrace
}

/// Whether a token of kind `k` closes a bracket: `)`, `]` or `}`.
pub open spec fn closes_bracket(k: TokenKind) -> bool {
    k == TokenKind::RParen || k == TokenKind::RBracket || k == TokenKind::RBrace
}

/// How many brackets are open before position `i` of `toks`; a closing
/// bracket with none open changes nothing.
pub open spec fn depth_before(toks: Seq<Token>, i: int) -> nat
    decreases i,
{
    if i <= 0 {
        0
    } else {
        let d = depth_before(toks, i - 1);
        if opens_bracket(toks[i - 1].kind) {
            d + 1
        } else if closes_bracket(toks[i - 1].kind) && d > 0 {
            (d - 1) as nat
        } else {
            d
        }
    }
}

/// The first `n` tokens of `toks` without the line breaks that stand
/// inside brackets.
pub open spec fn filtered_upto(toks: Seq<Token>, n: int) -> Seq<Token>
    decreases n,
{
    if n <= 0 {
        Seq::empty()
    } else if toks[n - 1].kind == TokenKind::Newline && depth_before(toks, n - 1) > 0 {
        filtered_upto(toks, n - 1)
    } else {
        filtered_upto(toks, n - 1).push(toks[n - 1])
    }
}

/// The stream `toks` without the line breaks that stand inside brackets.
pub open spec fn filtered(toks: Seq<Token>) -> Seq<Token> {
    filtered_upto(toks, toks.len() as int)
}

/// Every token of a filtered prefix is a token of the stream, and the
/// first token of the stream is kept.
proof fn lemma_filtered_from(toks: Seq<Token>, n: int)
    requires
        0 <= n <= toks.len(),
    ensures
        filtered_upto(toks, n).len() <= n,
        forall|j: int| 0 <= j < filtered_upto(toks, n).len() ==> exists|i: int| 0 <= i < n && #[trigger] filtered_upto(toks, n)[j] == toks[i],
        n >= 1 ==> filtered_upto(toks, n).len() >= 1 && filtered_upto(toks, n)[0] == toks[0],
    decreases n,
{
    if n > 0 {
        lemma_filtered_from(toks, n - 1);
        let prev = filtered_upto(toks, n - 1);
        if !(toks[n - 1].kind == TokenKind::Newline && depth_before(toks, n - 1) > 0) {
            assert forall|j: int| 0 <= j < filtered_upto(toks, n).len() implies exists|i: int| 0 <= i < n && #[trigger] filtered_upto(toks, n)[j] == toks[i] by {
                if j < prev.len() {
                    assert(filtered_upto(toks, n)[j] == prev[j]);
                } else {
                    assert(filtered_upto(toks, n)[j] == toks[n - 1]);
                }
            }
        }
    }
}

/// Two streams whose tokens have the same kinds, position by position.
pub open spec fn same_kinds(xs: Seq<Token>, ys: Seq<Token>) -> bool {
    &&& xs.len() == ys.len()
    &&& forall|i: int| 0 <= i < xs.len() ==> #[trigger] xs[i].kind == ys[i].kind
}

/// Filtering looks at kinds only: streams of the same kinds filter to
/// streams of the same kinds.
pub proof fn lemma_filtered_kinds(xs: Seq<Token>, ys: Seq<Token>, n: int)
    requires
        same_kinds(xs, ys),
        0 <= n <= xs.len(),
    ensures
        depth_before(xs, n) == depth_before(ys, n),
        same_kinds(filtered_upto(xs, n), filtered_upto(ys, n)),
    decreases n,
{
    if n > 0 {
        lemma_filtered_kinds(xs, ys, n - 1);
        assert(xs[n - 1].kind == ys[n - 1].kind);
        let fx = filtered_upto(xs, n);
        let fy = filtered_upto(ys, n);
        let px = filtered_upto(xs, n - 1);
        let py = filtered_upto(ys, n - 1);
        if !(xs[n - 1].kind == TokenKind::Newline && depth_before(xs, n - 1) > 0) {
            assert forall|i: int| 0 <= i < fx.len() implies #[trigger] fx[i].kind == fy[i].kind by {
                if i < px.len() {
                    assert(fx[i] == px[i] && fy[i] == py[i]);
                }
            }
        }
    }
}

/// Skipping line breaks looks at kinds only.
pub proof fn lemma_skip_kinds(xs: Seq<Token>, ys: Seq<Token>, p: int)
    requires
        same_kinds(xs, ys),
    ensures
        skip_newlines_from(xs, p) == skip_newlines_from(ys, p),
    decreases xs.len() - p,
{
    if 0 <= p < xs.len() - 1 && xs[p].kind == TokenKind::Newline {
        lemma_skip_kinds(xs, ys, p + 1);
    }
}

/// A stream with no bracket in its first `n` tokens keeps them all.
pub proof fn lemma_filtered_plain(toks: Seq<Token>, n: int)
    requires
        0 <= n <= toks.len(),
        forall|i: int| 0 <= i < n ==> !opens_bracket(#[trigger] toks[i].kind),
    ensures
        depth_before(toks, n) == 0,
        filtered_upto(toks, n) == toks.subrange(0, n),
    decreases n,
{
    if n > 0 {
        lemma_filtered_plain(toks, n - 1);
        assert(filtered_upto(toks, n) =~= toks.subrange(0, n));
    }
}

/// Filtering keeps a stream readable: the end-of-file token stays last,
/// and every token kept is a token of the stream.
pub proof fn lemma_filtered_ok(toks: Seq<Token>)
    requires
        stream_ok(toks),
    ensures
        stream_ok(filtered(toks)),
        filtered(toks).len() <= toks.len(),
        filtered(toks)[0] == toks[0],
{
    let n = toks.len() as int;
    lemma_filtered_from(toks, n);
    lemma_filtered_from(toks, n - 1);
    let f = filtered(toks);
    assert(f == filtered_upto(toks, n - 1).push(toks[n - 1]));
    assert forall|i: int| 0 <= i < f.len() implies quoted_lexeme_ok(#[trigger] f[i]) by {
        let k = choose|k: int| 0 <= k < n && f[i] == toks[k];
        assert(quoted_lexeme_ok(toks[k]));
    }
}

/// `d` is an error about `message`, located at `span` in the file `file`.
pub open spec fn reported(d: Diagnostic, message: Seq<char>, span: Span, file: Seq<char>) -> bool {
    &&& d.kind == DiagnosticKind::Error
    &&& d.message@ == message
    &&& d.span == Some(span)
    &&& d.filename.is_some()
    &&& d.filename.unwrap()@ == file
    &&& d.notes@.len() == 0
    &&& d.help.is_none()
}

/// Whether a token of kind `k` can begin a top-level declaration, an
/// annotation and `pub` included.
pub open spec fn starts_declaration(k: TokenKind) -> bool {
    matches!(k, TokenKind::At | TokenKind::Pub | TokenKind::Op | TokenKind::Struct | TokenKind::Enum
        | TokenKind::Ability | TokenKind::Impl | TokenKind::Const | TokenKind::Task | TokenKind::Protected
        | TokenKind::Unit | TokenKind::Extern | TokenKind::StaticAssert)
}

/// The message for a token of kind `found` where a declaration is expected.
pub open spec fn no_declaration_message(found: TokenKind) -> Seq<char> {
    "expected declaration, found "@ + kind_name(found)
}

/// The stream from `p` on opens with no module declaration and no import,
/// and its first token that is not a line break is neither the end of the
/// stream nor the start of a declaration.
pub open spec fn refuses_first(toks: Seq<Token>, p: int) -> bool {
    &&& toks[p].kind != TokenKind::Orbit
    &&& toks[p].kind != TokenKind::Dock
    &&& toks[skip_newlines_from(toks, p)].kind != TokenKind::Eof
    &&& !starts_declaration(toks[skip_newlines_from(toks, p)].kind)
}

/// Skipping line breaks twice stops where skipping once does.
pub proof fn lemma_skip_twice(toks: Seq<Token>, p: int)
    requires
        0 <= p < toks.len(),
    ensures
        skip_newlines_from(toks, skip_newlines_from(toks, p)) == skip_newlines_from(toks, p),
        p <= skip_newlines_from(toks, p) < toks.len(),
    decreases toks.len() - p,
{
    if 0 <= p < toks.len() - 1 && toks[p].kind == TokenKind::Newline {
        lemma_skip_twice(toks, p + 1);
    }
}

/// From `p` on the stream is a module declaration of one name, `orbit`
/// and the name, and then nothing but line breaks.
pub open spec fn module_only(toks: Seq<Token>, p: int) -> bool {
    &&& toks[p].kind == TokenKind::Orbit
    &&& toks[p + 1].kind == TokenKind::Identifier
    &&& blank_from(toks, p + 2)
}

/// The module declaration `md` names the one-segment module `name`.
pub open spec fn names_module(md: Option<ModuleDecl>, name: Seq<char>) -> bool {
    md matches Some(m) && m.path.segments@.len() == 1 && m.path.segments@[0]@ == name
}

/// The message for a missing token of kind `want` where `found` stands.
pub open spec fn expected_message(want: TokenKind, found: TokenKind) -> Seq<char> {
    "expected "@ + kind_name(want) + ", found "@ + kind_name(found)
}

/// The message for a missing identifier, described by `context`, where a
/// token of kind `found` stands.
pub open spec fn expected_ident_message(context: Seq<char>, found: TokenKind) -> Seq<char> {
    "expected identifier for "@ + context + ", found "@ + kind_name(found)
}

/// The first position at or after `p` that does not hold a line break.
pub open spec fn skip_newlines_from(toks: Seq<Token>, p: int) -> int
    decreases toks.len() - p,
{
    if 0 <= p < toks.len() - 1 && toks[p].kind == TokenKind::Newline {
        skip_newlines_from(toks, p + 1)
    } else {
        p
    }
}

/// From position `p` on, the stream holds nothing but line breaks before
/// its end.
pub open spec fn blank_from(toks: Seq<Token>, p: int) -> bool {
    forall|i: int| p <= i < toks.len() - 1 ==> (#[trigger] toks[i]).kind == TokenKind::Newline
}

/// Skipping the line breaks of a blank stream reaches its end.
pub proof fn lemma_skip_blank(toks: Seq<Token>, p: int)
    requires
        0 <= p < toks.len(),
        blank_from(toks, p),
    ensures
        skip_newlines_from(toks, p) == toks.len() - 1,
    decreases toks.len() - p,
{
    if p < toks.len() - 1 {
        assert(toks[p].kind == TokenKind::Newline);
        lemma_skip_blank(toks, p + 1);
    }
}

/// The tokens from `i` up to `e` spell the module path `segs`: names
/// joined by `.`.
pub open spec fn dotted_path(toks: Seq<Token>, i: int, e: int, segs: Seq<String>) -> bool {
    &&& segs.len() >= 1
    &&& e == i + 2 * segs.len() - 1
    &&& forall|k: int|
        0 <= k < segs.len() ==> {
            &&& (#[trigger] toks[i + 2 * k]).kind == TokenKind::Identifier
            &&& segs[k]@ == toks[i + 2 * k].lexeme@
        }
    &&& forall|k: int| 1 <= k < segs.len() ==> (#[trigger] toks[i + 2 * k - 1]).kind == TokenKind::Dot
}

/// From `p` on, the tokens spell the names `v`, each a name token, those
/// before the last each followed by a comma.
pub open spec fn names_run(toks: Seq<Token>, p: int, v: Seq<String>) -> bool {
    &&& forall|k: int|
        0 <= k < v.len() ==> {
            &&& (#[trigger] toks[p + 2 * k]).kind == TokenKind::Identifier
            &&& v[k]@ == toks[p + 2 * k].lexeme@
        }
    &&& forall|k: int| 0 <= k < v.len() - 1 ==> (#[trigger] toks[p + 2 * k + 1]).kind == TokenKind::Comma
}

/// The names `v` of a selective import are spelled from `p` on, the
/// closing brace at `c`: none at all, or names separated by commas with
/// perhaps one comma after the last.
pub open spec fn import_names_at(toks: Seq<Token>, p: int, c: int, v: Seq<String>) -> bool {
    &&& names_run(toks, p, v)
    &&& toks[c].kind == TokenKind::RBrace
    &&& {
        ||| v.len() > 0 && c == p + 2 * v.len() - 1
        ||| c == p + 2 * v.len() && (v.len() == 0 || toks[c - 1].kind == TokenKind::Comma)
    }
}

/// The alias of an import, read at position `a`: the name after `as`, or
/// none when no `as` stands there.
pub open spec fn alias_at(toks: Seq<Token>, a: int, alias: Option<String>) -> bool {
    if toks[a].kind == TokenKind::As {
        &&& toks[a + 1].kind == TokenKind::Identifier
        &&& alias matches Some(x) && x@ == toks[a + 1].lexeme@
    } else {
        alias is None
    }
}

/// What follows the module path of an import that ends at `e`: a dot and
/// a brace open a list of the names imported, and anything else imports
/// the module itself (a dot there is passed over); then the alias.
pub open spec fn import_rest(toks: Seq<Token>, e: int, d: ImportDecl) -> bool {
    if toks[e].kind == TokenKind::Dot && toks[e + 1].kind == TokenKind::LBrace {
        d.names matches ImportNames::Specific(v) && exists|c: int|
            #![trigger toks[c]]
            import_names_at(toks, e + 2, c, v@) && alias_at(toks, c + 1, d.alias)
    } else {
        &&& d.names is Module
        &&& alias_at(toks, if toks[e].kind == TokenKind::Dot { e + 1 } else { e }, d.alias)
    }
}

/// From `i` on the tokens spell the import `d`: `dock`, its module path as
/// far as it goes, and the rest (see `import_rest`).
pub open spec fn import_from(toks: Seq<Token>, i: int, d: ImportDecl) -> bool {
    &&& toks[i].kind == TokenKind::Dock
    &&& exists|e: int|
        #[trigger] dotted_path(toks, i + 1, e, d.path.segments@) && path_ends(toks, e) && import_rest(toks, e, d)
}

/// A module path that ends at `e` goes no further: no `.` and a name
/// follow it.
pub open spec fn path_ends(toks: Seq<Token>, e: int) -> bool {
    !(toks[e].kind == TokenKind::Dot && toks[e + 1].kind == TokenKind::Identifier)
}

/// A module path `segs` is spelled from `i` on.
pub open spec fn path_follows(toks: Seq<Token>, i: int, segs: Seq<String>) -> bool {
    exists|e: int| #[trigger] dotted_path(toks, i, e, segs)
}

/// Two module paths spelled from one position, each going as far as it
/// can, end at the same token.
pub proof fn lemma_path_end_unique(
    toks: Seq<Token>,
    i: int,
    e1: int,
    s1: Seq<String>,
    e2: int,
    s2: Seq<String>,
)
    requires
        dotted_path(toks, i, e1, s1),
        dotted_path(toks, i, e2, s2),
        path_ends(toks, e1),
        path_ends(toks, e2),
    ensures
        e1 == e2,
{
    if s1.len() < s2.len() {
        let m = s1.len() as int;
        assert(toks[i + 2 * m - 1].kind == TokenKind::Dot);
        assert(toks[i + 2 * m].kind == TokenKind::Identifier);
    } else if s2.len() < s1.len() {
        let m = s2.len() as int;
        assert(toks[i + 2 * m - 1].kind == TokenKind::Dot);
        assert(toks[i + 2 * m].kind == TokenKind::Identifier);
    }
}

/// From `p` on, after line breaks, the tokens spell empty operations (see
/// `empty_op_at`) named `names`, one after another with perhaps line
/// breaks between them, and then the end of the file.
pub open spec fn empty_ops_from(toks: Seq<Token>, p: int, names: Seq<Seq<char>>) -> bool
    decreases names.len(),
{
    let q = skip_newlines_from(toks, p);
    if names.len() == 0 {
        toks[q].kind == TokenKind::Eof
    } else {
        &&& empty_op_at(toks, q)
        &&& toks[q + 1].lexeme@ == names[0]
        &&& empty_ops_from(toks, empty_op_end(toks, q), names.drop_first())
    }
}

/// From `i` on the tokens spell a program of empty operations: `orbit`, the
/// module's name and a line break when `module` names one, then the empty
/// operations named `names`.
pub open spec fn empty_ops_program(
    toks: Seq<Token>,
    i: int,
    module: Option<Seq<char>>,
    names: Seq<Seq<char>>,
) -> bool {
    match module {
        Some(m) => {
            &&& toks[i].kind == TokenKind::Orbit
            &&& toks[i + 1].kind == TokenKind::Identifier
            &&& toks[i + 1].lexeme@ == m
            &&& toks[i + 2].kind == TokenKind::Newline
            &&& empty_ops_from(toks, i + 3, names)
        },
        None => toks[i].kind != TokenKind::Orbit && empty_ops_from(toks, i, names),
    }
}

/// `p` is the program of empty operations named `names`, in the module
/// `module` if it names one, with no imports.
pub open spec fn holds_empty_ops(p: Program, module: Option<Seq<char>>, names: Seq<Seq<char>>) -> bool {
    &&& p.imports@.len() == 0
    &&& match module {
        Some(m) => names_module(p.module_decl, m),
        None => p.module_decl is None,
    }
    &&& p.items@.len() == names.len()
    &&& forall|k: int| 0 <= k < names.len() ==> empty_op_item(#[trigger] p.items@[k], names[k])
}

/// A position holds a line break or is where skipping line breaks stops.
proof fn lemma_skip_lands(toks: Seq<Token>, p: int)
    ensures
        toks[p].kind == TokenKind::Newline || skip_newlines_from(toks, p) == p,
{
}

/// The names of a run of empty operations are those its tokens spell.
proof fn lemma_empty_ops_unique(toks: Seq<Token>, p: int, a: Seq<Seq<char>>, b: Seq<Seq<char>>)
    requires
        stream_ok(toks),
        0 <= p < toks.len(),
        empty_ops_from(toks, p, a),
        empty_ops_from(toks, p, b),
    ensures
        a == b,
    decreases a.len(),
{
    let q = skip_newlines_from(toks, p);
    lemma_skip_twice(toks, p);
    if a.len() > 0 && b.len() > 0 {
        let e = empty_op_end(toks, q);
        lemma_skip_twice(toks, q + 5);
        lemma_empty_ops_unique(toks, e, a.drop_first(), b.drop_first());
        assert(a =~= seq![a[0]] + a.drop_first());
        assert(b =~= seq![b[0]] + b.drop_first());
    } else if a.len() == 0 && b.len() == 0 {
        assert(a =~= b);
    }
}

/// Two streams whose tokens have the same kinds and texts, position by
/// position.
pub open spec fn same_words(xs: Seq<Token>, ys: Seq<Token>) -> bool {
    &&& xs.len() == ys.len()
    &&& forall|i: int| 0 <= i < xs.len() ==> #[trigger] xs[i].kind == ys[i].kind && xs[i].lexeme@ == ys[i].lexeme@
}

/// Filtering keeps streams of the same kinds and texts alike.
pub proof fn lemma_filtered_words(xs: Seq<Token>, ys: Seq<Token>, n: int)
    requires
        same_words(xs, ys),
        0 <= n <= xs.len(),
    ensures
        depth_before(xs, n) == depth_before(ys, n),
        same_words(filtered_upto(xs, n), filtered_upto(ys, n)),
    decreases n,
{
    if n > 0 {
        lemma_filtered_words(xs, ys, n - 1);
        assert(xs[n - 1].kind == ys[n - 1].kind);
        let fx = filtered_upto(xs, n);
        let fy = filtered_upto(ys, n);
        let px = filtered_upto(xs, n - 1);
        let py = filtered_upto(ys, n - 1);
        if !(xs[n - 1].kind == TokenKind::Newline && depth_before(xs, n - 1) > 0) {
            assert forall|i: int| 0 <= i < fx.len() implies #[trigger] fx[i].kind == fy[i].kind && fx[i].lexeme@
                == fy[i].lexeme@ by {
                if i < px.len() {
                    assert(fx[i] == px[i] && fy[i] == py[i]);
                }
            }
        }
    }
}

/// A run of empty operations depends on the kinds and texts of the tokens
/// alone.
proof fn lemma_empty_ops_words(xs: Seq<Token>, ys: Seq<Token>, p: int, names: Seq<Seq<char>>)
    requires
        stream_ok(xs),
        0 <= p < xs.len(),
        same_words(xs, ys),
        empty_ops_from(xs, p, names),
    ensures
        empty_ops_from(ys, p, names),
    decreases names.len(),
{
    assert(same_kinds(xs, ys));
    lemma_skip_kinds(xs, ys, p);
    lemma_skip_twice(xs, p);
    let q = skip_newlines_from(xs, p);
    if names.len() > 0 {
        assert(q + 1 < xs.len() - 1);
        assert(q + 3 < xs.len() - 1);
        assert(q + 5 <= xs.len() - 1);
        lemma_skip_kinds(xs, ys, q + 5);
        lemma_skip_twice(xs, q + 5);
        let e = empty_op_end(xs, q);
        assert(e - 1 < xs.len() - 1);
        assert(xs[q + 1].lexeme@ == ys[q + 1].lexeme@);
        assert(xs[q + 2].kind == ys[q + 2].kind);
        assert(xs[q + 3].kind == ys[q + 3].kind);
        assert(xs[q + 4].kind == ys[q + 4].kind);
        assert(xs[e - 1].kind == ys[e - 1].kind);
        lemma_empty_ops_words(xs, ys, e, names.drop_first());
    }
}

/// A program of empty operations depends on the kinds and texts of the
/// tokens alone.
pub proof fn lemma_empty_program_words(
    xs: Seq<Token>,
    ys: Seq<Token>,
    m: Option<Seq<char>>,
    names: Seq<Seq<char>>,
)
    requires
        stream_ok(xs),
        same_words(xs, ys),
        empty_ops_program(xs, 0, m, names),
    ensures
        empty_ops_program(ys, 0, m, names),
{
    if m is Some {
        assert(2 < xs.len() - 1);
        assert(xs[0].kind == ys[0].kind && xs[1].lexeme@ == ys[1].lexeme@);
        assert(xs[1].kind == ys[1].kind && xs[2].kind == ys[2].kind);
        lemma_empty_ops_words(xs, ys, 3, names);
    } else {
        assert(xs[0].kind == ys[0].kind);
        lemma_empty_ops_words(xs, ys, 0, names);
    }
}

/// Where error recovery from position `p` stops: at the first token, from
/// `p` on, that can start a statement or declaration, or at the end.
pub open spec fn sync_point(toks: Seq<Token>, p: int) -> int
    decreases toks.len() - p,
{
    if 0 <= p < toks.len() - 1 && toks[p].kind != TokenKind::Eof && !spec_is_statement_start(
        toks[p].kind,
    ) {
        sync_point(toks, p + 1)
    } else {
        p
    }
}

/// Whether a parse step that failed reports an error (not a warning).
pub open spec fn fails_with_error<T>(r: Result<T, Diagnostic>) -> bool {
    match r {
        Ok(_) => true,
        Err(d) => d.kind == DiagnosticKind::Error,
    }
}

/// The parser state. Holds the token stream, current position, accumulated
/// errors, and source text for diagnostic rendering.
pub struct Parser {
    pub tokens: Vec<Token>,
    pub pos: usize,
    _source: String,
    filename: String,
    errors: Vec<Diagnostic>,
}

impl Parser {
    /// The token stream.
    pub closed spec fn toks(&self) -> Seq<Token> {
        self.tokens@
    }

    /// The current position in the stream.
    pub closed spec fn at(&self) -> usize {
        self.pos
    }

    /// The errors found so far, oldest first.
    pub closed spec fn log(&self) -> Seq<Diagnostic> {
        self.errors@
    }

    /// The name of the file being parsed.
    pub closed spec fn file(&self) -> Seq<char> {
        self.filename@
    }

    /// The parser's invariant: the stream is readable, the position is in
    /// it, and every recorded problem is an error.
    pub open spec fn wf(&self) -> bool {
        &&& stream_ok(self.toks())
        &&& self.toks().len() <= usize::MAX
        &&& self.at() < self.toks().len()
        &&& forall|i: int|
            0 <= i < self.log().len() ==> (#[trigger] self.log()[i]).kind == DiagnosticKind::Error
    }

    /// The token at the current position.
    pub open spec fn cur(&self) -> Token {
        self.toks()[self.at() as int]
    }

    /// `self` is a later state of the parse that `before` was in: the same
    /// tokens and file, a position no earlier, and no error dropped.
    pub open spec fn moved_on(&self, before: &Parser) -> bool {
        &&& self.wf()
        &&& self.toks() == before.toks()
        &&& before.at() <= self.at()
        &&& self.file() == before.file()
        &&& before.log().len() <= self.log().len()
        &&& forall|i: int| 0 <= i < before.log().len() ==> #[trigger] self.log()[i] == before.log()[i]
    }

    /// `self` is `before` with one more error, about `message` at `span`.
    pub open spec fn one_error_more(&self, before: &Parser, message: Seq<char>, span: Span) -> bool {
        &&& self.log().len() == before.log().len() + 1
        &&& self.log().drop_last() == before.log()
        &&& reported(self.log().last(), message, span, before.file())
    }

    /// A parser at the start of `tokens`, with no errors yet. Line breaks
    /// inside parentheses, brackets and braces mean nothing to the grammar:
    /// they are dropped here, every other token kept in order.
    pub fn new(tokens: Vec<Token>, source: &str, filename: &str) -> (p: Parser)
        requires
            stream_ok(tokens@),
        ensures
            p.wf(),
            p.toks() == filtered(tokens@),
            p.at() == 0,
            p.log().len() == 0,
            p.file() == filename@,
    {
        let mut cleaned: Vec<Token> = Vec::new();
        let mut depth: usize = 0;
        let mut i: usize = 0;
        while i < tokens.len()
            invariant
                i <= tokens@.len(),
                depth == depth_before(tokens@, i as int),
                depth <= i,
                cleaned@ == filtered_upto(tokens@, i as int),
            decreases tokens@.len() - i,
        {
            let kind = tokens[i].kind;
            if !(kind == TokenKind::Newline && depth > 0) {
                let t = Token { kind, span: tokens[i].span, lexeme: tokens[i].lexeme.clone() };
                assert(t == tokens@[i as int]);
                cleaned.push(t);
            }
            if kind == TokenKind::LParen || kind == TokenKind::LBracket || kind == TokenKind::LBrace {
                depth = depth + 1;
            } else if (kind == TokenKind::RParen || kind == TokenKind::RBracket || kind == TokenKind::RBrace)
                && depth > 0 {
                depth = depth - 1;
            }
            i = i + 1;
        }
        proof {
            lemma_filtered_ok(tokens@);
        }
        Parser {
            tokens: cleaned,
            pos: 0,
            _source: String::from_str(source),
            filename: String::from_str(filename),
            errors: Vec::new(),
        }
    }

    /// Parse the complete program: an optional module declaration, the
    /// imports, then the top-level items. Fails with every error found when
    /// there was any, including errors recorded before the call.
    pub fn parse_program(&mut self) -> (r: Result<Program, Vec<Diagnostic>>)
        requires
            old(self).wf(),
        ensures
            final(self).wf(),
            final(self).toks() == old(self).toks(),
            old(self).log().len() > 0 ==> r is Err,
            old(self).log().len() == 0 && blank_from(old(self).toks(), old(self).at() as int) ==> (r matches Ok(
                p,
            ) && p.module_decl is None && p.imports@.len() == 0 && p.items@.len() == 0),
            old(self).log().len() == 0 && module_only(old(self).toks(), old(self).at() as int) ==> (r matches Ok(
                p,
            ) && names_module(p.module_decl, old(self).toks()[old(self).at() + 1].lexeme@) && p.imports@.len() == 0
                && p.items@.len() == 0),
            old(self).log().len() == 0 && refuses_first(old(self).toks(), old(self).at() as int) ==> (r matches Err(
                errors,
            ) && errors@[0].message@ == no_declaration_message(
                old(self).toks()[skip_newlines_from(old(self).toks(), old(self).at() as int)].kind,
            )),
            match r {
                Ok(p) => {
                    &&& final(self).log().len() == 0
                    &&& (p.module_decl is Some <==> old(self).cur().kind == TokenKind::Orbit)
                },
                Err(errors) => {
                    &&& errors@.len() > 0
                    &&& forall|i: int|
                        0 <= i < errors@.len() ==> (#[trigger] errors@[i]).kind
                            == DiagnosticKind::Error
                    &&& final(self).log().len() == 0
                },
            },
            old(self).log().len() == 0 ==> forall|m: Option<Seq<char>>, names: Seq<Seq<char>>|
                #[trigger] empty_ops_program(old(self).toks(), old(self).at() as int, m, names) ==> (r matches Ok(p)
                    && holds_empty_ops(p, m, names)),
    {
        let ghost n0 = self.log().len();
        let ghost plain = n0 == 0 && exists|m: Option<Seq<char>>, names: Seq<Seq<char>>|
            empty_ops_program(self.toks(), self.at() as int, m, names);
        let ghost (wm, wnames) = choose|m: Option<Seq<char>>, names: Seq<Seq<char>>|
            empty_ops_program(self.toks(), self.at() as int, m, names);
        let ghost p1: int = if wm is Some { self.at() + 3 } else { self.at() as int };
        let ghost mut rest: Seq<Seq<char>> = wnames;
        let ghost blank = n0 == 0 && blank_from(self.toks(), self.at() as int);
        let ghost at0 = self.at();
        let ghost refused = n0 == 0 && refuses_first(self.toks(), self.at() as int);
        let ghost q = skip_newlines_from(self.toks(), self.at() as int);
        let ghost msg = no_declaration_message(self.toks()[q].kind);
        let ghost modonly = n0 == 0 && module_only(self.toks(), self.at() as int);
        let ghost name = self.toks()[self.at() + 1].lexeme@;
        proof {
            lemma_skip_twice(self.toks(), at0 as int);
            if blank && at0 < self.toks().len() - 1 {
                assert(self.toks()[at0 as int].kind == TokenKind::Newline);
            }
        }
        let start_span = self.current_span();
        let module_decl = if self.check(TokenKind::Orbit) {
            Some(self.parse_module_decl())
        } else {
            None
        };
        proof {
            if plain {
                assert(empty_ops_from(self.toks(), p1, wnames));
                lemma_skip_lands(self.toks(), p1);
                lemma_skip_twice(self.toks(), p1);
                assert(self.toks()[p1].kind != TokenKind::Dock);
            }
        }
        let mut imports: Vec<ImportDecl> = Vec::new();
        loop
            invariant
                plain ==> self.at() == p1 && self.log().len() == 0 && imports@.len() == 0 && self.toks()[p1].kind
                    != TokenKind::Dock,
                self.wf(),
                self.toks() == old(self).toks(),
                n0 <= self.log().len(),
                blank == (n0 == 0 && blank_from(old(self).toks(), old(self).at() as int)),
                blank ==> self.at() == at0 && at0 == old(self).at() && imports@.len() == 0 && self.log().len() == 0,
                refused == (n0 == 0 && refuses_first(old(self).toks(), old(self).at() as int)),
                refused ==> self.at() == at0 && at0 == old(self).at() && self.log().len() == 0,
                modonly ==> self.log().len() == 0 && blank_from(old(self).toks(), self.at() as int) && imports@.len()
                    == 0 && names_module(module_decl, name),
            decreases self.toks().len() - self.at(),
        {
            if !self.check(TokenKind::Dock) {
                break;
            }
            self.skip_newlines();
            if self.check(TokenKind::Dock) {
                imports.push(self.parse_import());
            } else {
                break;
            }
        }
        let mut items = Vec::new();
        let ghost at1 = self.at();
        self.skip_newlines();
        proof {
            if blank {
                lemma_skip_blank(self.toks(), at0 as int);
            }
            if modonly {
                lemma_skip_blank(self.toks(), at1 as int);
            }
        }
        proof {
            if plain {
                lemma_skip_twice(self.toks(), p1);
            }
        }
        while !self.at_end()
            invariant
                self.wf(),
                self.toks() == old(self).toks(),
                plain ==> {
                    &&& self.log().len() == 0
                    &&& imports@.len() == 0
                    &&& match wm {
                        Some(m) => names_module(module_decl, m),
                        None => module_decl is None,
                    }
                    &&& empty_ops_from(self.toks(), self.at() as int, rest)
                    &&& items@.len() + rest.len() == wnames.len()
                    &&& rest == wnames.subrange(items@.len() as int, wnames.len() as int)
                    &&& forall|k: int| 0 <= k < items@.len() ==> empty_op_item(#[trigger] items@[k], wnames[k])
                },
                n0 <= self.log().len(),
                blank ==> self.at() == self.toks().len() - 1 && items@.len() == 0 && imports@.len() == 0
                    && self.log().len() == 0,
                q == skip_newlines_from(old(self).toks(), old(self).at() as int),
                skip_newlines_from(old(self).toks(), q) == q,
                refused ==> refuses_first(old(self).toks(), old(self).at() as int),
                msg == no_declaration_message(old(self).toks()[q].kind),
                refused ==> (self.at() == q && self.log().len() == 0) || (self.log().len() > 0
                    && self.log()[0].message@ == msg),
                modonly ==> self.at() == self.toks().len() - 1 && items@.len() == 0 && imports@.len() == 0
                    && self.log().len() == 0 && names_module(module_decl, name),
            ensures
                self.cur().kind == TokenKind::Eof,
            decreases self.toks().len() - self.at(),
        {
            let before = self.pos;
            let ghost first = refused && self.log().len() == 0;
            let ghost e0 = self.log();
            proof {
                if plain {
                    lemma_skip_twice(self.toks(), self.at() as int);
                }
            }
            self.skip_newlines();
            if self.at_end() {
                break;
            }
            let ghost q = self.at() as int;
            let ghost items0 = items@;
            proof {
                if plain {
                    lemma_skip_twice(self.toks(), q);
                    assert(empty_ops_from(self.toks(), q, rest));
                    assert(rest.len() > 0);
                    assert(skip_newlines_from(self.toks(), q) == q);
                    assert(empty_op_at(self.toks(), q));
                    assert(q + 1 < self.toks().len() - 1);
                    assert(q + 3 < self.toks().len() - 1);
                    assert(q + 5 <= self.toks().len() - 1);
                    lemma_skip_twice(self.toks(), q + 5);
                }
            }
            match self.parse_item() {
                Ok(item) => {
                    assert(!first);
                    items.push(item);
                    proof {
                        if plain {
                            assert(rest.len() > 0);
                            assert(items@.last() == item);
                            assert(rest[0] == wnames[items0.len() as int]);
                            assert forall|k: int| 0 <= k < items@.len() implies empty_op_item(
                                #[trigger] items@[k],
                                wnames[k],
                            ) by {
                                if k < items0.len() {
                                    assert(items@[k] == items0[k]);
                                }
                            }
                            rest = rest.drop_first();
                            assert(rest =~= wnames.subrange(items@.len() as int, wnames.len() as int));
                            assert(empty_ops_from(self.toks(), self.at() as int, rest));
                            lemma_skip_twice(self.toks(), self.at() as int);
                        }
                    }
                },
                Err(diag) => {
                    let ghost e1 = self.log();
                    self.errors.push(diag);
                    proof {
                        if first {
                            assert(self.log()[0] == diag);
                        } else if refused {
                            assert(e1[0] == e0[0]);
                            assert(self.log()[0] == e1[0]);
                        }
                    }
                    self.synchronize();
                },
            }
            let ghost e2 = self.log();
            let ghost a2 = self.at() as int;
            self.skip_newlines();
            proof {
                if plain {
                    assert(a2 > q);
                    assert(skip_newlines_from(self.toks(), a2) == skip_newlines_from(self.toks(), self.at() as int));
                }
            }
            if self.pos == before {
                // recovery stopped where it began: step over the token
                self.advance();
            }
            proof {
                if refused && e2.len() > 0 {
                    assert(self.log()[0] == e2[0]);
                }
            }
        }
        let end_span = self.previous_span();
        proof {
            if plain {
                if rest.len() > 0 {
                    assert(empty_op_at(self.toks(), skip_newlines_from(self.toks(), self.at() as int)));
                }
                assert(items@.len() == wnames.len());
                assert forall|m: Option<Seq<char>>, names: Seq<Seq<char>>|
                    #[trigger] empty_ops_program(old(self).toks(), old(self).at() as int, m, names) implies m == wm
                        && names == wnames by {
                    let t = old(self).toks();
                    let i = old(self).at() as int;
                    if m is Some {
                        lemma_empty_ops_unique(t, i + 3, names, wnames);
                    } else {
                        lemma_empty_ops_unique(t, i, names, wnames);
                    }
                }
            }
        }
        proof {
            if refused {
                assert(self.at() != q);
                assert(self.log()[0].message@ == msg);
            }
        }
        if self.errors.len() > 0 {
            let ghost all = self.log();
            let mut taken = Vec::new();
            std::mem::swap(&mut taken, &mut self.errors);
            assert(taken@ == all);
            return Err(taken);
        }
        Ok(Program { module_decl, imports, items, span: start_span.merge(end_span) })
    }

    fn parse_module_decl(&mut self) -> (m: ModuleDecl)
        requires
            old(self).wf(),
        ensures
            final(self).moved_on(old(self)),
            m.span == old(self).cur().span.spec_merge(m.path.span),
            m.path.segments@.len() >= 1,
            final(self).log().len() == old(self).log().len() ==> {
                let toks = old(self).toks();
                let i = old(self).at() as int;
                &&& toks[i].kind == TokenKind::Orbit
                &&& path_follows(toks, i + 1, m.path.segments@)
            },
            module_only(old(self).toks(), old(self).at() as int) ==> {
                &&& final(self).log() == old(self).log()
                &&& m.path.segments@.len() == 1
                &&& m.path.segments@[0]@ == old(self).toks()[old(self).at() + 1].lexeme@
                &&& blank_from(old(self).toks(), final(self).at() as int)
            },
            old(self).cur().kind == TokenKind::Orbit && old(self).toks()[old(self).at() + 1].kind
                == TokenKind::Identifier && old(self).toks()[old(self).at() + 2].kind == TokenKind::Newline ==> {
                &&& final(self).log() == old(self).log()
                &&& final(self).at() == old(self).at() + 3
                &&& m.path.segments@.len() == 1
                &&& m.path.segments@[0]@ == old(self).toks()[old(self).at() + 1].lexeme@
            },
    {
        let start = self.current_span();
        proof {
            let toks = old(self).toks();
            let q = old(self).at() + 2;
            if module_only(toks, old(self).at() as int) {
                assert(toks[q - 1] != toks.last());
                if q < toks.len() - 1 {
                    assert(toks[q].kind == TokenKind::Newline);
                } else {
                    assert(toks[q] == toks.last());
                }
            }
        }
        self.expect(TokenKind::Orbit);
        let ghost l1 = self.log().len();
        let path = self.parse_module_path();
        let ghost e = self.at() as int;
        let ghost l2 = self.log().len();
        proof {
            if self.log().len() == old(self).log().len() {
                assert(dotted_path(old(self).toks(), old(self).at() + 1, e, path.segments@));
                assert(path_follows(old(self).toks(), old(self).at() + 1, path.segments@));
            }
        }
        self.expect_line_end();
        proof {
            if module_only(old(self).toks(), old(self).at() as int) || (old(self).cur().kind == TokenKind::Orbit
                && old(self).toks()[old(self).at() + 1].kind == TokenKind::Identifier && old(self).toks()[old(
                self,
            ).at() + 2].kind == TokenKind::Newline) {
                assert(dotted_path(old(self).toks(), old(self).at() + 1, e, path.segments@));
                assert(old(self).toks()[old(self).at() + 1 + 2 * 0].kind == TokenKind::Identifier);
            }
        }
        let span = start.merge(path.span);
        ModuleDecl { path, span }
    }

    pub(crate) fn parse_import(&mut self) -> (d: ImportDecl)
        requires
            old(self).wf(),
            old(self).cur().kind == TokenKind::Dock,
        ensures
            final(self).moved_on(old(self)),
            final(self).at() > old(self).at(),
            final(self).log().len() == old(self).log().len() ==> import_from(
                old(self).toks(),
                old(self).at() as int,
                d,
            ),
            (exists|w: ImportDecl| import_from(old(self).toks(), old(self).at() as int, w))
                ==> final(self).log() == old(self).log(),
    {
        let ghost toks = self.toks();
        let ghost n0 = self.log().len();
        let ghost good = exists|w: ImportDecl| import_from(toks, old(self).at() as int, w);
        let ghost w: ImportDecl = choose|w: ImportDecl| import_from(toks, old(self).at() as int, w);
        let ghost ew: int = choose|e: int|
            #[trigger] dotted_path(toks, old(self).at() + 1, e, w.path.segments@) && path_ends(toks, e)
                && import_rest(toks, e, w);
        let start = self.current_span();
        self.expect(TokenKind::Dock);
        let ghost i1 = self.at() as int;
        let ghost l1 = self.log().len();
        proof {
            if good {
                assert(toks[i1 + 2 * 0].kind == TokenKind::Identifier);
            }
        }
        let path = self.parse_module_path();
        let ghost e = self.at() as int;
        let ghost l2 = self.log().len();
        proof {
            if good {
                lemma_path_end_unique(toks, i1, e, path.segments@, ew, w.path.segments@);
                assert(import_rest(toks, e, w));
            }
        }
        let dot = self.match_token(TokenKind::Dot);
        let ghost c: int = 0;
        let names = if dot && self.check(TokenKind::LBrace) {
            self.advance();
            let ghost p = self.at() as int;
            let ghost vv: Seq<String> = match w.names {
                ImportNames::Specific(v) => v@,
                _ => Seq::empty(),
            };
            let ghost cw: int = choose|c: int|
                #![trigger toks[c]]
                import_names_at(toks, e + 2, c, vv) && alias_at(toks, c + 1, w.alias);
            proof {
                if good {
                    assert(import_names_at(toks, p, cw, vv));
                }
            }
            let mut selected: Vec<String> = Vec::new();
            loop
                invariant_except_break
                    self.log().len() == n0 ==> self.at() == p + 2 * selected@.len() && (selected@.len() > 0
                        ==> toks[self.at() - 1].kind == TokenKind::Comma),
                    good ==> self.log() == old(self).log() && self.at() == p + 2 * selected@.len()
                        && selected@.len() <= vv.len() && (selected@.len() == vv.len() ==> self.at() == cw),
                invariant
                    good ==> import_names_at(toks, p, cw, vv),
                    self.moved_on(old(self)),
                    self.at() > old(self).at(),
                    toks == old(self).toks(),
                    n0 == old(self).log().len(),
                    p <= self.at(),
                    l2 <= self.log().len(),
                    self.log().len() == n0 ==> names_run(toks, p, selected@),
                ensures
                    self.moved_on(old(self)),
                    self.at() > old(self).at(),
                    p <= self.at(),
                    l2 <= self.log().len(),
                    self.log().len() == n0 ==> names_run(toks, p, selected@) && ((self.at() == p + 2
                        * selected@.len() && (selected@.len() > 0 ==> toks[self.at() - 1].kind == TokenKind::Comma)
                        && toks[self.at() as int].kind == TokenKind::RBrace) || (selected@.len() > 0 && self.at()
                        == p + 2 * selected@.len() - 1)),
                    good ==> self.log() == old(self).log() && self.at() == cw,
                decreases self.toks().len() - self.at(),
            {
                proof {
                    if good && selected@.len() < vv.len() {
                        let q = selected@.len() as int;
                        assert(toks[p + 2 * q].kind == TokenKind::Identifier);
                    }
                }
                if self.check(TokenKind::RBrace) {
                    break;
                }
                let ghost before = selected@;
                let ghost h = self.at() as int;
                let ghost l0 = self.log().len();
                let name = self.expect_identifier("import name");
                selected.push(name);
                proof {
                    if self.log().len() == n0 {
                        assert(l0 == n0);
                        assert forall|k: int| 0 <= k < selected@.len() implies {
                            &&& (#[trigger] toks[p + 2 * k]).kind == TokenKind::Identifier
                            &&& selected@[k]@ == toks[p + 2 * k].lexeme@
                        } by {
                            if k < before.len() {
                                assert(selected@[k] == before[k]);
                            }
                        }
                        assert forall|k: int| 0 <= k < selected@.len() - 1 implies (#[trigger] toks[p + 2 * k
                            + 1]).kind == TokenKind::Comma by {
                            if k == before.len() - 1 {
                                assert(p + 2 * k + 1 == h - 1);
                            }
                        }
                    }
                }
                proof {
                    if good && selected@.len() < vv.len() {
                        let q = (selected@.len() - 1) as int;
                        assert(toks[p + 2 * q + 1].kind == TokenKind::Comma);
                    }
                }
                if !self.match_token(TokenKind::Comma) {
                    break;
                }
            }
            proof {
                c = self.at() as int;
            }
            self.expect(TokenKind::RBrace);
            proof {
                if self.log().len() == n0 {
                    assert(import_names_at(toks, p, c, selected@));
                }
            }
            ImportNames::Specific(selected)
        } else {
            ImportNames::Module
        };
        let ghost a = self.at() as int;
        proof {
            if good {
                assert(alias_at(toks, a, w.alias));
            }
        }
        let alias = if self.match_token(TokenKind::As) {
            Some(self.expect_identifier("import alias"))
        } else {
            None
        };
        let end = self.previous_span();
        self.expect_line_end();
        let d = ImportDecl { path, names, alias, span: start.merge(end) };
        proof {
            if self.log().len() == n0 {
                assert(l1 == n0 && l2 == n0);
                assert(dotted_path(toks, i1, e, d.path.segments@));
                assert(alias_at(toks, a, d.alias));
                if toks[e].kind == TokenKind::Dot && toks[e + 1].kind == TokenKind::LBrace {
                    assert(a == c + 1);
                    assert(import_names_at(toks, e + 2, c, d.names->Specific_0@) && toks[c] == toks[c]);
                }
                assert(import_rest(toks, e, d));
            }
        }
        d
    }

    pub(crate) fn parse_module_path(&mut self) -> (p: ModulePath)
        requires
            old(self).wf(),
        ensures
            final(self).moved_on(old(self)),
            p.segments@.len() >= 1,
            final(self).log().len() == old(self).log().len() ==> {
                &&& dotted_path(old(self).toks(), old(self).at() as int, final(self).at() as int, p.segments@)
                &&& p.span == old(self).toks()[old(self).at() as int].span.spec_merge(
                    old(self).toks()[final(self).at() - 1].span,
                )
            },
            old(self).cur().kind == TokenKind::Identifier && old(self).toks()[old(self).at() + 1].kind
                != TokenKind::Dot ==> final(self).log() == old(self).log() && final(self).at() == old(self).at() + 1
                && p.segments@.len() == 1,
            old(self).cur().kind == TokenKind::Identifier ==> final(self).log() == old(self).log(),
            final(self).log().len() == old(self).log().len() ==> !(old(self).toks()[final(self).at() as int].kind
                == TokenKind::Dot && old(self).toks()[final(self).at() + 1].kind == TokenKind::Identifier),
    {
        let ghost toks = self.toks();
        let ghost n0 = self.log().len();
        let ghost i = self.at() as int;
        let start = self.current_span();
        let ghost lone = old(self).cur().kind == TokenKind::Identifier && old(self).toks()[old(self).at() + 1].kind
            != TokenKind::Dot;
        let first = self.expect_identifier("module name");
        let mut segments = vec![first];
        loop
            invariant
                lone == (old(self).cur().kind == TokenKind::Identifier && old(self).toks()[old(self).at() + 1].kind
                    != TokenKind::Dot),
                lone ==> self.at() == old(self).at() + 1 && self.log() == old(self).log() && segments@.len() == 1,
                self.moved_on(old(self)),
                toks == old(self).toks(),
                n0 == old(self).log().len(),
                i == old(self).at(),
                segments@.len() >= 1,
                self.log().len() == n0 ==> dotted_path(toks, i, self.at() as int, segments@),
                old(self).cur().kind == TokenKind::Identifier ==> self.log() == old(self).log(),
            ensures
                self.moved_on(old(self)),
                self.log().len() == n0 ==> dotted_path(toks, i, self.at() as int, segments@),
                old(self).cur().kind == TokenKind::Identifier ==> self.log() == old(self).log(),
                self.log().len() == n0 ==> !(toks[self.at() as int].kind == TokenKind::Dot && toks[self.at()
                    + 1].kind == TokenKind::Identifier),
                lone ==> self.at() == old(self).at() + 1 && self.log() == old(self).log() && segments@.len() == 1,
            decreases self.toks().len() - self.at(),
        {
            let ghost segs0 = segments@;
            let before = self.pos;
            if !self.match_token(TokenKind::Dot) {
                break;
            }
            if self.check(TokenKind::Identifier) {
                segments.push(self.expect_identifier("module segment"));
                proof {
                    if self.log().len() == n0 {
                        let segs = segments@;
                        assert forall|k: int| 0 <= k < segs.len() implies {
                            &&& (#[trigger] toks[i + 2 * k]).kind == TokenKind::Identifier
                            &&& segs[k]@ == toks[i + 2 * k].lexeme@
                        } by {
                            if k < segs.len() - 1 {
                                assert(segs[k] == segs0[k]);
                            }
                        }
                        assert forall|k: int| 1 <= k < segs.len() implies (#[trigger] toks[i + 2 * k - 1]).kind
                            == TokenKind::Dot by {
                            if k < segs.len() - 1 {
                                assert(dotted_path(toks, i, self.at() - 2, segs0));
                            }
                        }
                    }
                }
            } else {
                // give the dot back: a `{` of a selective import follows
                self.rewind(before);
                break;
            }
        }
        let end = self.previous_span();
        ModulePath { segments, span: start.merge(end) }
    }

    // -- Token management --

    /// The token at the current position.
    pub(crate) fn current(&self) -> (t: &Token)
        requires
            self.wf(),
        ensures
            *t == self.cur(),
    {
        &self.tokens[self.pos]
    }

    pub(crate) fn current_kind(&self) -> (k: TokenKind)
        requires
            self.wf(),
        ensures
            k == self.cur().kind,
    {
        self.tokens[self.pos].kind
    }

    pub(crate) fn current_span(&self) -> (s: Span)
        requires
            self.wf(),
        ensures
            s == self.cur().span,
    {
        self.tokens[self.pos].span
    }

    /// The span of the token before the current one, or the empty span at
    /// offset 0 at the start.
    pub(crate) fn previous_span(&self) -> (s: Span)
        requires
            self.wf(),
        ensures
            s == (if self.at() > 0 {
                self.toks()[self.at() - 1].span
            } else {
                Span::point_spec(0)
            }),
    {
        if self.pos > 0 {
            self.tokens[self.pos - 1].span
        } else {
            Span::point(0)
        }
    }

    /// Move past the current token, unless it is the end of the file.
    pub(crate) fn advance(&mut self)
        requires
            old(self).wf(),
        ensures
            final(self).moved_on(old(self)),
            final(self).log() == old(self).log(),
            final(self).at() == (if old(self).cur().kind == TokenKind::Eof {
                old(self).at()
            } else {
                (old(self).at() + 1) as usize
            }),
    {
        if !self.at_end() {
            let _count = self.tokens.len();
            self.pos = self.pos + 1;
        }
    }

    /// Move back to the earlier position `to`.
    pub(crate) fn rewind(&mut self, to: usize)
        requires
            old(self).wf(),
            to <= old(self).at(),
        ensures
            final(self).wf(),
            final(self).toks() == old(self).toks(),
            final(self).file() == old(self).file(),
            final(self).log() == old(self).log(),
            final(self).at() == to,
    {
        self.pos = to;
    }

    /// The current position.
    pub(crate) fn position(&self) -> (p: usize)
        ensures
            p == self.at(),
    {
        self.pos
    }

    /// The token at position `i`.
    pub(crate) fn token_at(&self, i: usize) -> (t: &Token)
        requires
            i < self.toks().len(),
        ensures
            *t == self.toks()[i as int],
    {
        &self.tokens[i]
    }

    pub(crate) fn at_end(&self) -> (b: bool)
        requires
            self.wf(),
        ensures
            b == (self.cur().kind == TokenKind::Eof),
    {
        self.current_kind() == TokenKind::Eof
    }

    pub(crate) fn check(&self, kind: TokenKind) -> (b: bool)
        requires
            self.wf(),
        ensures
            b == (self.cur().kind == kind),
    {
        self.current_kind() == kind
    }

    /// Move past the current token if it is of kind `kind`.
    pub(crate) fn match_token(&mut self, kind: TokenKind) -> (b: bool)
        requires
            old(self).wf(),
        ensures
            final(self).moved_on(old(self)),
            final(self).log() == old(self).log(),
            b == (old(self).cur().kind == kind),
            final(self).at() == (if b && kind != TokenKind::Eof {
                (old(self).at() + 1) as usize
            } else {
                old(self).at()
            }),
    {
        if self.check(kind) {
            self.advance();
            true
        } else {
            false
        }
    }

    /// Record the error `d`.
    pub(crate) fn report(&mut self, d: Diagnostic)
        requires
            old(self).wf(),
            d.kind == DiagnosticKind::Error,
        ensures
            final(self).moved_on(old(self)),
            final(self).at() == old(self).at(),
            final(self).log() == old(self).log().push(d),
            final(self).log().drop_last() == old(self).log(),
            final(self).log().len() == old(self).log().len() + 1,
            final(self).log().last() == d,
    {
        self.errors.push(d);
        assert(self.log().drop_last() =~= old(self).log());
    }

    /// Move past a token of kind `kind`, or record an error where it is
    /// missing. Gives the span of the current token either way.
    pub(crate) fn expect(&mut self, kind: TokenKind) -> (s: Span)
        requires
            old(self).wf(),
        ensures
            final(self).moved_on(old(self)),
            s == old(self).cur().span,
            old(self).cur().kind == kind ==> {
                &&& final(self).log() == old(self).log()
                &&& final(self).at() == (if kind != TokenKind::Eof {
                    (old(self).at() + 1) as usize
                } else {
                    old(self).at()
                })
            },
            old(self).cur().kind != kind ==> {
                &&& final(self).at() == old(self).at()
                &&& final(self).one_error_more(
                    old(self),
                    expected_message(kind, old(self).cur().kind),
                    old(self).cur().span,
                )
            },
    {
        let span = self.current_span();
        if self.check(kind) {
            self.advance();
            span
        } else {
            let found = self.current_kind();
            let mut m = String::from_str("expected ");
            m.append(kind.name());
            m.append(", found ");
            m.append(found.name());
            let d = self.error(m);
            self.report(d);
            span
        }
    }

    /// Move past an identifier and give its text; where there is none,
    /// record an error naming `context` and give `<error>`.
    pub(crate) fn expect_identifier(&mut self, context: &str) -> (name: String)
        requires
            old(self).wf(),
        ensures
            final(self).moved_on(old(self)),
            old(self).cur().kind == TokenKind::Identifier ==> {
                &&& name@ == old(self).cur().lexeme@
                &&& final(self).log() == old(self).log()
                &&& final(self).at() == old(self).at() + 1
            },
            old(self).cur().kind != TokenKind::Identifier ==> {
                &&& name@ == "<error>"@
                &&& final(self).at() == old(self).at()
                &&& final(self).one_error_more(
                    old(self),
                    expected_ident_message(context@, old(self).cur().kind),
                    old(self).cur().span,
                )
            },
    {
        if self.check(TokenKind::Identifier) {
            let name = self.current().lexeme.clone();
            self.advance();
            name
        } else {
            let found = self.current_kind();
            let mut m = String::from_str("expected identifier for ");
            m.append(context);
            m.append(", found ");
            m.append(found.name());
            let d = self.error(m);
            self.report(d);
            String::from_str("<error>")
        }
    }

    /// Move past any line breaks.
    pub(crate) fn skip_newlines(&mut self)
        requires
            old(self).wf(),
        ensures
            final(self).moved_on(old(self)),
            final(self).log() == old(self).log(),
            final(self).at() == skip_newlines_from(old(self).toks(), old(self).at() as int),
    {
        while self.check(TokenKind::Newline)
            invariant
                self.moved_on(old(self)),
                self.log() == old(self).log(),
                skip_newlines_from(self.toks(), self.at() as int) == skip_newlines_from(
                    old(self).toks(),
                    old(self).at() as int,
                ),
            decreases self.toks().len() - self.at(),
        {
            self.advance();
        }
    }

    /// Move past a line break, if one follows.
    pub(crate) fn expect_line_end(&mut self)
        requires
            old(self).wf(),
        ensures
            final(self).moved_on(old(self)),
            final(self).log() == old(self).log(),
            final(self).at() == (if old(self).cur().kind == TokenKind::Newline {
                (old(self).at() + 1) as usize
            } else {
                old(self).at()
            }),
    {
        if self.check(TokenKind::Newline) {
            self.advance();
        }
    }

    /// Error recovery: skip tokens until one that can start a statement or
    /// declaration, or the end of the file.
    pub(crate) fn synchronize(&mut self)
        requires
            old(self).wf(),
        ensures
            final(self).moved_on(old(self)),
            final(self).log() == old(self).log(),
            final(self).at() == sync_point(old(self).toks(), old(self).at() as int),
    {
        while !self.at_end()
            invariant
                self.moved_on(old(self)),
                self.log() == old(self).log(),
                sync_point(self.toks(), self.at() as int) == sync_point(
                    old(self).toks(),
                    old(self).at() as int,
                ),
            decreases self.toks().len() - self.at(),
        {
            if self.current_kind().is_statement_start() {
                return;
            }
            self.advance();
        }
    }

    /// An error about `message` at the current token.
    pub(crate) fn error(&self, message: String) -> (d: Diagnostic)
        requires
            self.wf(),
        ensures
            reported(d, message@, self.cur().span, self.file()),
    {
        Diagnostic::error(message).with_span(self.current_span()).with_file(self.filename.as_str())
    }

    /// The kind of the token `n` places ahead, or the end of the file past it.
    pub(crate) fn peek_ahead(&self, n: usize) -> (k: TokenKind)
        requires
            self.wf(),
            self.at() + n <= usize::MAX,
        ensures
            k == (if self.at() + n < self.toks().len() {
                self.toks()[self.at() + n].kind
            } else {
                TokenKind::Eof
            }),
    {
        if self.pos + n < self.tokens.len() {
            self.tokens[self.pos + n].kind
        } else {
            TokenKind::Eof
        }
    }
}

} // verus!
