//! The type-checking pass: registers declarations, walks function bodies,
//! and reports type errors.

use vstd::prelude::*;
use vstd::string::*;
use crate::ast::{
    FieldDecl, GenericParam, TypeExpr, Program, Item, OpDecl, StructDecl, EnumDecl, AbilityDecl, ConstDecl, TaskDecl, TaskBodyDecl,
    StaticAssertNode, Block, Stmt, SelectArm, MatchArm, MatchArmBody, Expr, Param, LiteralValue, Annotation, Pattern,
};
use crate::ast::nodes::expr_span;
use crate::types::types::{display, lemma_result_not_primitive, spec_is_integer};
use crate::types::{TypeV, Type, FunctionInfo, ParamInfo, StructInfo, FieldInfo, EnumInfo, VariantInfo, AbilityInfo, TaskInfo};
use crate::checker::env::{TypeEnv, starts_fresh, VarBinding, law_bind_then_lookup, lookup_var_in, enum_in};
use crate::checker::infer::{called_function, missing_effect, effect_message, assignable, gives_result, builds_result, quiet_expr, bound_names, lemma_quiet_expr_grows, has_inferred, resolved, compatible, literal_type, leaf_type};
use crate::diagnostics::{Diagnostic, DiagnosticKind};
use crate::text::str_eq;

verus! {

broadcast use vstd::std_specs::vec::axiom_vec_index_decreases, vstd::string::group_string_axioms;

/// The state of a check: the type environment, the errors found so far, the
/// return type of the function being checked, and whether a loop body is
/// being checked.
pub struct TypeChecker {
    pub env: TypeEnv,
    pub errors: Vec<Diagnostic>,
    pub current_return_type: Option<Type>,
    /// The effects that the function being checked declares; none outside
    /// a function, where calls are not held to effects.
    pub current_effects: Option<Vec<String>>,
    pub in_loop: bool,
}

/// Whether a statement is `break` or `continue`.
pub open spec fn is_jump(s: Stmt) -> bool {
    s is Break || s is Continue
}

/// Whether a block has a `break` or `continue` among its own statements,
/// outside any loop of it.
pub open spec fn has_stray_jump(b: Block) -> bool {
    exists|j: int| 0 <= j < b.stmts@.len() && is_jump(#[trigger] b.stmts@[j])
}

/// Whether an operation's body has a `break` or `continue` among its own
/// statements.
pub open spec fn op_body_stray(f: OpDecl) -> bool {
    f.body matches Some(b) && has_stray_jump(b)
}

/// Whether a `match` arm's block body has a `break` or `continue` among its
/// own statements.
pub open spec fn arm_body_stray(a: MatchArm) -> bool {
    a.body matches MatchArmBody::Block(b) && has_stray_jump(b)
}

/// Whether a `select` arm's body, or that of the arm a guard leads to, has
/// a `break` or `continue` among its own statements.
pub open spec fn select_arm_stray(arm: SelectArm) -> bool
    decreases arm,
{
    match arm {
        SelectArm::Accept { body, .. } => has_stray_jump(body),
        SelectArm::Delay { body, .. } => has_stray_jump(body),
        SelectArm::When { accept, .. } => select_arm_stray(*accept),
    }
}

/// Whether an item is a function whose body has a `break` or `continue`
/// among its own statements.
pub open spec fn op_has_stray_jump(item: Item) -> bool {
    item matches Item::Op(f) && f.body matches Some(b) && has_stray_jump(b)
}

/// Whether a top-level function of the program has a `break` or `continue`
/// outside any loop.
pub open spec fn program_has_stray_jump(p: Program) -> bool {
    exists|i: int| 0 <= i < p.items@.len() && op_has_stray_jump(#[trigger] p.items@[i])
}

/// Whether the arm `a` covers the variant named `v`: it has no guard, and
/// its pattern is a wildcard, a binding, or a variant whose path ends in
/// `v`.
pub open spec fn arm_covers(a: MatchArm, v: Seq<char>) -> bool {
    &&& a.guard is None
    &&& match a.pattern {
        Pattern::Wildcard { .. } => true,
        Pattern::Binding { .. } => true,
        Pattern::Variant { path, .. } => path@.len() > 0 && path@.last()@ == v,
        _ => false,
    }
}

/// The first of the variants from position `i` on that no arm covers.
pub open spec fn uncovered_from(variants: Seq<VariantInfo>, arms: Seq<MatchArm>, i: int) -> Option<Seq<char>>
    decreases variants.len() - i,
{
    if i < 0 || i >= variants.len() {
        None
    } else if exists|k: int| 0 <= k < arms.len() && arm_covers(#[trigger] arms[k], variants[i].name@) {
        uncovered_from(variants, arms, i + 1)
    } else {
        Some(variants[i].name@)
    }
}

/// The first variant of the enum type `t`, as `env` records it, that no
/// arm covers; none when `t` is no enum known to `env`.
pub open spec fn enum_uncovered(env: TypeEnv, t: TypeV, arms: Seq<MatchArm>) -> Option<Seq<char>> {
    match t {
        TypeV::Enum { id, .. } => match enum_in(env.enum_list(), id) {
            Some(info) => uncovered_from(info.variants@, arms, 0),
            None => None,
        },
        _ => None,
    }
}

/// The error about a `match` that leaves the variant `v` out.
pub open spec fn uncovered_message(v: Seq<char>) -> Seq<char> {
    "non-exhaustive match: variant '"@ + v + "' not covered"@
}

/// Whether the arm `a` covers the variant named `v`.
fn covers(a: &MatchArm, v: &str) -> (b: bool)
    ensures
        b == arm_covers(*a, v@),
{
    if a.guard.is_some() {
        return false;
    }
    match &a.pattern {
        Pattern::Wildcard { .. } => true,
        Pattern::Binding { .. } => true,
        Pattern::Variant { path, .. } => path.len() > 0 && str_eq(path[path.len() - 1].as_str(), v),
        _ => false,
    }
}

/// The first of `variants` that no arm of `arms` covers.
fn first_uncovered(variants: &Vec<VariantInfo>, arms: &Vec<MatchArm>) -> (r: Option<String>)
    ensures
        match r {
            Some(v) => uncovered_from(variants@, arms@, 0) == Some(v@),
            None => uncovered_from(variants@, arms@, 0) is None,
        },
{
    let mut i: usize = 0;
    while i < variants.len()
        invariant
            i <= variants@.len(),
            uncovered_from(variants@, arms@, 0) == uncovered_from(variants@, arms@, i as int),
        decreases variants@.len() - i,
    {
        let mut found = false;
        let mut k: usize = 0;
        while k < arms.len()
            invariant
                i < variants@.len(),
                k <= arms@.len(),
                found == exists|j: int| 0 <= j < k && arm_covers(#[trigger] arms@[j], variants@[i as int].name@),
            decreases arms@.len() - k,
        {
            if covers(&arms[k], variants[i].name.as_str()) {
                found = true;
            }
            k = k + 1;
        }
        if !found {
            return Some(variants[i].name.clone());
        }
        i = i + 1;
    }
    None
}

/// A statement that checking inside a loop finds nothing to fault in:
/// `break`, `continue`, or a `loop` or a `while true` / `while false`
/// whose body holds only such statements.
pub open spec fn stmt_jump_safe(s: Stmt) -> bool
    decreases s,
{
    match s {
        Stmt::Break(_) => true,
        Stmt::Continue(_) => true,
        Stmt::Loop(l) => jumps_only(l.body),
        Stmt::While(w) => (w.condition matches Expr::Literal(c) && c.value is Bool) && jumps_only(w.body),
        _ => false,
    }
}

/// A block each of whose statements is `stmt_jump_safe`.
pub open spec fn jumps_only(b: Block) -> bool
    decreases b,
{
    forall|i: int| #![trigger b.stmts@[i]] 0 <= i < b.stmts@.len() ==> stmt_jump_safe(b.stmts@[i])
}

/// Whether an item is a function whose body drops a result: an `ok(..)` or
/// `err(..)` call left as a statement (see `stmt_discards`), or a name
/// declared with a `Result` type and then used alone (see `let_then_drop`).
pub open spec fn op_drops_result(item: Item) -> bool {
    item matches Item::Op(f) && f.body matches Some(b) && (block_discards(b) || block_drops_let(b))
}

/// Whether an item is a function whose body assigns to a name that the
/// statement before declared with `let` (see `let_then_assign`).
pub open spec fn op_assigns_let(item: Item) -> bool {
    item matches Item::Op(f) && f.body matches Some(b) && block_assigns_let(b)
}

/// Whether a top-level function of the program drops a result.
pub open spec fn program_drops_result(p: Program) -> bool {
    exists|i: int| 0 <= i < p.items@.len() && op_drops_result(#[trigger] p.items@[i])
}

/// The statements of `stmts` before position `i` are quiet, each with the
/// names `names` and those that the statements before it bind.
pub open spec fn quiet_upto(stmts: Seq<Stmt>, names: Set<Seq<char>>, i: int) -> bool {
    forall|k: int| 0 <= k < i ==> quiet_stmt(#[trigger] stmts[k], names + bound_before(stmts, k))
}

/// The first fault of a block, with `names` bound, is an assignment to a
/// name that the statement before declared with `let`: every statement up
/// to that `let` is quiet.
pub open spec fn assign_first(b: Block, names: Set<Seq<char>>) -> bool {
    exists|j: int| #[trigger] let_then_assign(b.stmts@, j) && quiet_upto(b.stmts@, names, j + 1)
}

/// An operation whose body's first fault is such an assignment (see
/// `assign_first`).
pub open spec fn op_assign_first(item: Item) -> bool {
    item matches Item::Op(f) && f.body matches Some(b) && assign_first(b, param_names(f.params@))
}

/// A program without constants whose first fault is an assignment to a
/// name just declared with `let`: the items before the operation that
/// holds it are quiet.
pub open spec fn program_assign_first(p: Program) -> bool {
    &&& forall|i: int| 0 <= i < p.items@.len() ==> !(#[trigger] p.items@[i] is Constant)
    &&& exists|k: int|
        0 <= k < p.items@.len() && op_assign_first(#[trigger] p.items@[k]) && forall|i: int|
            0 <= i < k ==> quiet_item(#[trigger] p.items@[i])
}

/// More names bound keep the first fault of a block where it was.
proof fn lemma_assign_first_grows(b: Block, names: Set<Seq<char>>, more: Set<Seq<char>>)
    requires
        assign_first(b, names),
        names.subset_of(more),
    ensures
        assign_first(b, more),
{
    let j = choose|j: int| #[trigger] let_then_assign(b.stmts@, j) && quiet_upto(b.stmts@, names, j + 1);
    assert forall|k: int| 0 <= k < j + 1 implies quiet_stmt(#[trigger] b.stmts@[k], more + bound_before(b.stmts@, k)) by {
        lemma_quiet_stmt_grows(b.stmts@[k], names + bound_before(b.stmts@, k), more + bound_before(b.stmts@, k));
    }
    assert(let_then_assign(b.stmts@, j));
}

/// Whether a top-level function of the program assigns to a name just
/// declared with `let`.
pub open spec fn program_assigns_let(p: Program) -> bool {
    exists|i: int| 0 <= i < p.items@.len() && op_assigns_let(#[trigger] p.items@[i])
}

/// Whether a declared type takes the value `value` without a conversion
/// check of its own: an integer literal fits any integer type, its range
/// being checked where it is stored.
pub open spec fn literal_fits(declared: TypeV, value: Expr) -> bool {
    &&& spec_is_integer(declared)
    &&& value matches Expr::Literal(l) && l.value is Int
}

/// Whether `value` is an integer literal.
fn is_int_literal(value: &Expr) -> (b: bool)
    ensures
        b == (value matches Expr::Literal(l) && l.value is Int),
{
    match value {
        Expr::Literal(l) => matches!(l.value, LiteralValue::Int(_)),
        _ => false,
    }
}

/// The error about a result of type `t` that is dropped.
pub open spec fn unused_result_message(t: Seq<char>) -> Seq<char> {
    "unused result of type "@ + t + " that must be handled"@
}

/// Whether a statement drops the result of an `ok(..)` or `err(..)` call,
/// as a statement of its own or inside one of its blocks.
pub open spec fn stmt_discards(s: Stmt) -> bool
    decreases s,
{
    match s {
        Stmt::Expr(e) => e.expr matches Expr::Call(c) && builds_result(c),
        Stmt::If(i) => {
            ||| block_discards(i.then_block)
            ||| exists|k: int| #![trigger i.else_ifs@[k]] 0 <= k < i.else_ifs@.len() && block_discards(i.else_ifs@[k].1)
            ||| i.else_block matches Some(b) && block_discards(b)
        },
        Stmt::While(w) => block_discards(w.body),
        Stmt::Loop(l) => block_discards(l.body),
        Stmt::For(f) => block_discards(f.body),
        Stmt::Match(m) => exists|k: int| #![trigger m.arms@[k]] 0 <= k < m.arms@.len() && arm_discards(m.arms@[k]),
        _ => false,
    }
}

/// Whether a `match` arm's block body drops a result (see `stmt_discards`).
pub open spec fn arm_discards(a: MatchArm) -> bool
    decreases a,
{
    match a.body {
        MatchArmBody::Block(b) => block_discards(b),
        MatchArmBody::Expr(_) => false,
    }
}

/// Whether a statement of a block drops a result (see `stmt_discards`).
pub open spec fn block_discards(b: Block) -> bool
    decreases b,
{
    exists|j: int| #![trigger b.stmts@[j]] 0 <= j < b.stmts@.len() && stmt_discards(b.stmts@[j])
}

/// Whether `d` is the error about a dropped result.
pub open spec fn is_unused_report(d: Diagnostic) -> bool {
    exists|t: Seq<char>| d.message@ == #[trigger] unused_result_message(t)
}

/// Whether an error about a dropped result stands in `after` past the
/// errors of `before`.
pub open spec fn unused_reported(before: Seq<Diagnostic>, after: Seq<Diagnostic>) -> bool {
    exists|k: int| before.len() <= k < after.len() && is_unused_report(#[trigger] after[k])
}

/// Whether the error about assigning to an immutable location stands in
/// `after` past the errors of `before`.
pub open spec fn immutable_reported(before: Seq<Diagnostic>, after: Seq<Diagnostic>) -> bool {
    exists|k: int| before.len() <= k < after.len() && (#[trigger] after[k]).message@
        == "cannot assign to immutable location"@
}

/// `after` starts with `before`.
pub open spec fn extends(after: Seq<Diagnostic>, before: Seq<Diagnostic>) -> bool {
    &&& before.len() <= after.len()
    &&& forall|i: int| 0 <= i < before.len() ==> #[trigger] after[i] == before[i]
}

/// A report found between `b` and `c` is still found between an earlier
/// `a` and a later `d`.
proof fn lemma_reports_kept(a: Seq<Diagnostic>, b: Seq<Diagnostic>, c: Seq<Diagnostic>, d: Seq<Diagnostic>)
    requires
        a.len() <= b.len(),
        extends(d, c),
    ensures
        unused_reported(b, c) ==> unused_reported(a, d),
        immutable_reported(b, c) ==> immutable_reported(a, d),
{
    if unused_reported(b, c) {
        let k = choose|k: int| b.len() <= k < c.len() && is_unused_report(#[trigger] c[k]);
        assert(d[k] == c[k]);
    }
    if immutable_reported(b, c) {
        let k = choose|k: int| b.len() <= k < c.len() && (#[trigger] c[k]).message@ == "cannot assign to immutable location"@;
        assert(d[k] == c[k]);
    }
}

/// Statement `j` of `stmts` declares a name with `let` and the next one
/// assigns to that name.
pub open spec fn let_then_assign(stmts: Seq<Stmt>, j: int) -> bool {
    &&& 0 <= j && j + 1 < stmts.len()
    &&& stmts[j] matches Stmt::Let(l)
    &&& stmts[j + 1] matches Stmt::Assign(a)
    &&& a.target matches Expr::Identifier(id)
    &&& id.name@ == l.name@
}

/// Whether a type expression is written `Result<T, E>`.
pub open spec fn names_result(t: TypeExpr) -> bool {
    t matches TypeExpr::Named { name, generics, .. } && name@ == "Result"@ && generics@.len() == 2
}

/// Statement `j` of `stmts` declares a name with `let` and a `Result`
/// type, and the next one is that name alone, its value dropped.
pub open spec fn let_then_drop(stmts: Seq<Stmt>, j: int) -> bool {
    &&& 0 <= j && j + 1 < stmts.len()
    &&& stmts[j] matches Stmt::Let(l)
    &&& l.type_expr matches Some(t)
    &&& names_result(t)
    &&& !has_inferred(t)
    &&& stmts[j + 1] matches Stmt::Expr(e)
    &&& e.expr matches Expr::Identifier(id)
    &&& id.name@ == l.name@
}

/// What a `let` statement leaves in `env`: its name bound immutable, to a
/// `Result` when its declared type is written `Result<T, E>`.
pub open spec fn let_bound(env: TypeEnv, s: Stmt) -> bool {
    match s {
        Stmt::Let(l) => {
            &&& env.spec_lookup_var(l.name@) matches Some(b) && !b.mutable
            &&& match l.type_expr {
                Some(t) => names_result(t) && !has_inferred(t) ==> env.spec_lookup_var(l.name@).unwrap().ty@ is Result,
                None => true,
            }
        },
        _ => true,
    }
}

/// A type expression written `Result<T, E>` stands for a result type.
proof fn lemma_result_resolves(env: TypeEnv, t: TypeExpr)
    requires
        names_result(t),
    ensures
        resolved(env, t) is Result,
{
    lemma_result_not_primitive();
    reveal_strlit("Result");
    reveal_strlit("Option");
    reveal_strlit("Slice");
    reveal_strlit("Vec");
    assert("Result"@[0] != "Option"@[0]);
}

/// Whether a block, among its own statements, assigns to a name that the
/// statement before declared with `let`.
pub open spec fn block_assigns_let(b: Block) -> bool {
    exists|j: int| #[trigger] let_then_assign(b.stmts@, j)
}

/// Whether a block, among its own statements, drops the value of a name
/// that the statement before declared with a `Result` type.
pub open spec fn block_drops_let(b: Block) -> bool {
    exists|j: int| #[trigger] let_then_drop(b.stmts@, j)
}

/// A statement in which checking finds nothing to fault, when the
/// variables in `names` are bound: a `let` or `var` without a declared
/// type, or a `return`, whose expression is quiet, or an expression
/// statement that uses no variable.
pub open spec fn quiet_stmt(s: Stmt, names: Set<Seq<char>>) -> bool {
    match s {
        Stmt::Let(l) => l.type_expr is None && quiet_expr(l.value, names),
        Stmt::Var(v) => v.type_expr is None && quiet_expr(v.value, names),
        Stmt::Expr(x) => quiet_expr(x.expr, Set::empty()),
        Stmt::Return(r) => match r.value {
            None => true,
            Some(v) => quiet_expr(v, names),
        },
        _ => false,
    }
}

/// The variable that a statement binds, as a set of at most one name.
pub open spec fn declared_names(s: Stmt) -> Set<Seq<char>> {
    match s {
        Stmt::Let(l) => set![l.name@],
        Stmt::Var(v) => set![v.name@],
        _ => Set::empty(),
    }
}

/// The variables that the first `i` statements bind.
pub open spec fn bound_before(stmts: Seq<Stmt>, i: int) -> Set<Seq<char>>
    decreases i,
{
    if i <= 0 {
        Set::empty()
    } else {
        bound_before(stmts, i - 1) + declared_names(stmts[i - 1])
    }
}

/// A block of statements each quiet with the variables in `names` and
/// those that the statements before it bind.
pub open spec fn quiet_block(b: Block, names: Set<Seq<char>>) -> bool {
    forall|i: int|
        0 <= i < b.stmts@.len() ==> quiet_stmt(#[trigger] b.stmts@[i], names + bound_before(b.stmts@, i))
}

/// The names of a list of parameters.
pub open spec fn param_names(ps: Seq<Param>) -> Set<Seq<char>> {
    Set::new(|n: Seq<char>| exists|k: int| 0 <= k < ps.len() && (#[trigger] ps[k]).name@ == n)
}

/// An operation whose body, if it has one, is quiet with its parameters.
pub open spec fn quiet_op(f: OpDecl) -> bool {
    match f.body {
        None => true,
        Some(b) => quiet_block(b, param_names(f.params@)),
    }
}

/// More names bound keep a statement quiet.
pub proof fn lemma_quiet_stmt_grows(s: Stmt, names: Set<Seq<char>>, more: Set<Seq<char>>)
    requires
        quiet_stmt(s, names),
        names.subset_of(more),
    ensures
        quiet_stmt(s, more),
{
    match s {
        Stmt::Let(l) => lemma_quiet_expr_grows(l.value, names, more),
        Stmt::Var(v) => lemma_quiet_expr_grows(v.value, names, more),
        Stmt::Return(r) => {
            if let Some(v) = r.value {
                lemma_quiet_expr_grows(v, names, more);
            }
        },
        _ => {},
    }
}

/// More names bound keep a block quiet.
pub proof fn lemma_quiet_block_grows(b: Block, names: Set<Seq<char>>, more: Set<Seq<char>>)
    requires
        quiet_block(b, names),
        names.subset_of(more),
    ensures
        quiet_block(b, more),
{
    assert forall|i: int| 0 <= i < b.stmts@.len() implies quiet_stmt(
        #[trigger] b.stmts@[i],
        more + bound_before(b.stmts@, i),
    ) by {
        lemma_quiet_stmt_grows(b.stmts@[i], names + bound_before(b.stmts@, i), more + bound_before(b.stmts@, i));
    }
}

/// An item in which checking finds nothing to fault: any declaration but a
/// constant or a static assertion, where every operation and task body is
/// quiet.
pub open spec fn quiet_item(item: Item) -> bool {
    match item {
        Item::Op(f) => quiet_op(f),
        Item::ImplBlock(b) => forall|i: int| 0 <= i < b.methods@.len() ==> quiet_op(#[trigger] b.methods@[i]),
        Item::TaskBody(tb) => quiet_block(tb.body, param_names(tb.params@)),
        Item::Constant(_) => false,
        Item::StaticAssert(_) => false,
        _ => true,
    }
}

/// `infos` records the parameters `ps`, in order: the same names and
/// mutability, and, when no parameter type is left to infer, the types
/// that `ps` declare, resolved in `env`.
pub open spec fn params_recorded(env: TypeEnv, ps: Seq<Param>, infos: Seq<ParamInfo>) -> bool {
    &&& infos.len() == ps.len()
    &&& forall|i: int|
        0 <= i < ps.len() ==> (#[trigger] infos[i]).name@ == ps[i].name@ && infos[i].is_mut == ps[i].is_mut
    &&& (forall|i: int| 0 <= i < ps.len() ==> !has_inferred(#[trigger] ps[i].type_expr)) ==> forall|i: int|
        0 <= i < ps.len() ==> (#[trigger] infos[i]).ty@ == resolved(env, ps[i].type_expr)
}

/// `infos` records the fields `fs` in order, as `params_recorded` does.
pub open spec fn fields_recorded(env: TypeEnv, fs: Seq<FieldDecl>, infos: Seq<FieldInfo>) -> bool {
    &&& infos.len() == fs.len()
    &&& forall|i: int| 0 <= i < fs.len() ==> (#[trigger] infos[i]).name@ == fs[i].name@
    &&& (forall|i: int| 0 <= i < fs.len() ==> !has_inferred(#[trigger] fs[i].type_expr)) ==> forall|i: int|
        0 <= i < fs.len() ==> (#[trigger] infos[i]).ty@ == resolved(env, fs[i].type_expr)
}

/// The type recorded as a declared return type `ret`: the unit type when
/// there is none, and the declared type resolved in `env` when nothing in
/// it is left to infer.
pub open spec fn return_recorded(env: TypeEnv, ret: Option<TypeExpr>, t: TypeV) -> bool {
    match ret {
        None => t == TypeV::Unit,
        Some(te) => !has_inferred(te) ==> t == resolved(env, te),
    }
}

/// No type in the parameters `ps` is left to infer.
pub open spec fn params_resolved(ps: Seq<Param>) -> bool {
    forall|i: int| 0 <= i < ps.len() ==> !has_inferred(#[trigger] ps[i].type_expr)
}

/// The names in `names` are those of `gs`, in order.
pub open spec fn names_of_generics(gs: Seq<GenericParam>, names: Seq<String>) -> bool {
    names.len() == gs.len() && forall|i: int| 0 <= i < gs.len() ==> (#[trigger] names[i])@ == gs[i].name@
}

/// `info` is the signature recorded for the operation `f` in `env`: its
/// name, parameters, return type (when no parameter type is left to
/// infer), generic parameter names and visibility.
pub open spec fn signature_of(env: TypeEnv, f: OpDecl, info: FunctionInfo) -> bool {
    &&& info.name@ == f.name@
    &&& params_recorded(env, f.params@, info.params@)
    &&& params_resolved(f.params@) ==> return_recorded(env, f.return_type, info.return_type@)
    &&& names_of_generics(f.generics@, info.generic_params@)
    &&& info.is_pub == f.is_pub
}

/// A variable declared with the type `te`, if any, has the type `t`: the
/// declared type resolved in `env`, when nothing in it is left to infer.
pub open spec fn annotated_fits(env: TypeEnv, te: Option<TypeExpr>, t: TypeV) -> bool {
    match te {
        None => true,
        Some(x) => !has_inferred(x) ==> t == resolved(env, x),
    }
}

/// `after` holds the errors of `before` and, when `fault` holds, one more:
/// an error about `message` at `span`.
pub open spec fn reported_if(before: Seq<Diagnostic>, after: Seq<Diagnostic>, fault: bool, message: Seq<char>, span: crate::diagnostics::Span) -> bool {
    if fault {
        &&& after.len() == before.len() + 1
        &&& after.drop_last() =~= before
        &&& after.last().kind == DiagnosticKind::Error
        &&& after.last().message@ == message
        &&& after.last().span == Some(span)
    } else {
        after == before
    }
}

/// The message for a variable `name` declared with the type `d` whose
/// initial value has the type `v`, which does not fit it.
pub open spec fn mismatch_message(name: Seq<char>, d: TypeV, v: TypeV) -> Seq<char> {
    "cannot assign "@ + display(v) + " to variable '"@ + name + "' of type "@ + display(d)
}

/// A declared type `te` that an initial value made of one literal or one
/// bound name does not fit: the declared type and the value's type.
pub open spec fn declared_mismatch(env: TypeEnv, te: Option<TypeExpr>, value: Expr) -> Option<(TypeV, TypeV)> {
    match te {
        Some(t) => match leaf_type(env, value) {
            Some(v) => {
                let d = resolved(env, t);
                if !has_inferred(t) && !compatible(d, v) && !(v is Error) && !literal_fits(d, value) {
                    Some((d, v))
                } else {
                    None
                }
            },
            None => None,
        },
        None => None,
    }
}

/// What checking the constant `decl`, whose value is the literal `v`,
/// leaves of the errors: one more when its declared type, resolved in
/// `env`, does not fit the literal's type.
pub open spec fn const_checked(env: TypeEnv, decl: ConstDecl, v: LiteralValue, before: Seq<Diagnostic>, after: Seq<Diagnostic>) -> bool {
    match decl.type_expr {
        None => after == before,
        Some(t) => !has_inferred(t) ==> {
            let declared = resolved(env, t);
            let found = literal_type(v, env.infer_counter());
            reported_if(
                before,
                after,
                !compatible(declared, found) && !(v is Int && spec_is_integer(declared)),
                "constant '"@ + decl.name@ + "' declared as "@ + display(declared) + " but initialized with "@ + display(found),
                decl.span,
            )
        },
    }
}

/// `after` is the list `before` with one more entry.
pub open spec fn one_more<T>(before: Seq<T>, after: Seq<T>) -> bool {
    &&& after.len() == before.len() + 1
    &&& forall|i: int| 0 <= i < before.len() ==> #[trigger] after[i] == before[i]
}

/// A program made of quiet items only.
pub open spec fn quiet_program(p: Program) -> bool {
    forall|i: int| 0 <= i < p.items@.len() ==> quiet_item(#[trigger] p.items@[i])
}

/// `d` is an error not yet attributed to a file.
pub open spec fn unfiled_error(d: Diagnostic) -> bool {
    d.kind == DiagnosticKind::Error && d.filename.is_none()
}

/// Run the type checker on a parsed program. Gives the program back when it
/// type-checks, or else every type error found, each attributed to
/// `filename`. A `break` or `continue` outside a loop is always an error,
/// and so are a dropped result (`program_drops_result`) and an assignment
/// to a name just declared with `let` (`program_assigns_let`), each with
/// its own message; a program of quiet items (see `quiet_item`) always
/// type-checks.
pub fn check(program: Program, filename: &str) -> (r: Result<Program, Vec<Diagnostic>>)
    ensures
        program_has_stray_jump(program) ==> r is Err,
        quiet_program(program) ==> r is Ok,
        program_drops_result(program) ==> match r {
            Ok(_) => false,
            Err(errors) => exists|k: int| 0 <= k < errors@.len() && is_unused_report(#[trigger] errors@[k]),
        },
        program_assign_first(program) ==> (r matches Err(errors) && errors@.len() > 0 && errors@[0].message@
            == "cannot assign to immutable location"@),
        program_assigns_let(program) ==> match r {
            Ok(_) => false,
            Err(errors) => exists|k: int| 0 <= k < errors@.len() && (#[trigger] errors@[k]).message@
                == "cannot assign to immutable location"@,
        },
        match r {
            Ok(p) => p == program,
            Err(errors) => {
                &&& errors@.len() > 0
                &&& forall|i: int| 0 <= i < errors@.len() ==> {
                    &&& (#[trigger] errors@[i]).kind == DiagnosticKind::Error
                    &&& errors@[i].filename.is_some()
                    &&& errors@[i].filename.unwrap()@ == filename@
                }
            },
        },
{
    let mut checker = TypeChecker::new();
    checker.check_program(&program);
    if checker.errors.len() == 0 {
        Ok(program)
    } else {
        // attach the file name to every diagnostic that has none
        let ghost all = checker.errors@;
        let mut pending = checker.errors;
        let mut out: Vec<Diagnostic> = Vec::new();
        while pending.len() > 0
            invariant
                out@.len() + pending@.len() == all.len(),
                forall|j: int| 0 <= j < out@.len() ==> (#[trigger] out@[j]).message == all[j].message,
                forall|j: int| 0 <= j < pending@.len() ==> #[trigger] pending@[j] == all[out@.len() + j],
                forall|j: int| 0 <= j < pending@.len() ==> unfiled_error(#[trigger] pending@[j]),
                forall|j: int| 0 <= j < out@.len() ==> {
                    &&& (#[trigger] out@[j]).kind == DiagnosticKind::Error
                    &&& out@[j].filename.is_some()
                    &&& out@[j].filename.unwrap()@ == filename@
                },
                out@.len() > 0 || pending@.len() > 0,
            decreases pending@.len(),
        {
            let d = pending.remove(0);
            assert(unfiled_error(d));
            out.push(d.with_file(filename));
        }
        proof {
            if program_drops_result(program) {
                let k = choose|k: int| 0 <= k < all.len() && is_unused_report(#[trigger] all[k]);
                assert(out@[k].message == all[k].message);
                assert(is_unused_report(out@[k]));
            }
            if program_assigns_let(program) {
                let k = choose|k: int| 0 <= k < all.len() && (#[trigger] all[k]).message@
                    == "cannot assign to immutable location"@;
                assert(out@[k].message == all[k].message);
            }
        }
        Err(out)
    }
}

/// The effects that annotations declare: the names given to the `effect`
/// annotations, in order.
pub fn declared_effects(annotations: &Vec<Annotation>) -> (effects: Vec<String>) {
    let mut effects: Vec<String> = Vec::new();
    let mut i: usize = 0;
    while i < annotations.len()
        decreases annotations@.len() - i,
    {
        let a = &annotations[i];
        if str_eq(a.name.as_str(), "effect") {
            let mut j: usize = 0;
            while j < a.args.len()
                decreases a.args@.len() - j,
            {
                if let Expr::Identifier(id) = &a.args[j].value {
                    effects.push(id.name.clone());
                }
                j = j + 1;
            }
        }
        i = i + 1;
    }
    effects
}

impl TypeChecker {
    /// The checker's invariant: the environment is well formed and every
    /// error recorded is an error not yet attributed to a file.
    pub open spec fn wf(&self) -> bool {
        &&& self.env.wf()
        &&& forall|i: int| 0 <= i < self.errors@.len() ==> unfiled_error(#[trigger] self.errors@[i])
    }

    /// The number of scopes open.
    pub open spec fn depth(&self) -> nat {
        self.env.frames().len()
    }

    /// `self` follows `before`: well formed, as many scopes open, the
    /// errors found before still there, first, and inside a loop exactly
    /// when `before` was.
    pub open spec fn kept(&self, before: &TypeChecker) -> bool {
        &&& self.wf()
        &&& self.depth() == before.depth()
        &&& before.errors@.len() <= self.errors@.len()
        &&& forall|i: int| 0 <= i < before.errors@.len() ==> #[trigger] self.errors@[i] == before.errors@[i]
        &&& self.in_loop == before.in_loop
    }

    pub fn new() -> (c: TypeChecker)
        ensures
            c.wf(),
            c.errors@.len() == 0,
            !c.in_loop,
            starts_fresh(c.env),
            c.current_return_type is None,
            c.current_effects is None,
    {
        TypeChecker {
            env: TypeEnv::new(),
            errors: Vec::new(),
            current_return_type: None,
            in_loop: false,
            current_effects: None,
        }
    }

    /// Record the error `d`.
    pub(crate) fn report(&mut self, d: Diagnostic)
        requires
            old(self).wf(),
            unfiled_error(d),
        ensures
            final(self).kept(old(self)),
            final(self).env == old(self).env,
            final(self).in_loop == old(self).in_loop,
            final(self).errors@ == old(self).errors@.push(d),
    {
        self.errors.push(d);
    }

    /// Check a program in two passes: first register every top-level
    /// declaration, so that they can refer to each other in any order;
    /// then check the bodies.
    fn check_program(&mut self, program: &Program)
        requires
            old(self).wf(),
        ensures
            quiet_program(*program) ==> final(self).errors@ == old(self).errors@,
            final(self).kept(old(self)),
            !old(self).in_loop && program_has_stray_jump(*program) ==> final(self).errors@.len()
                > old(self).errors@.len(),
            program_drops_result(*program) ==> unused_reported(old(self).errors@, final(self).errors@),
            program_assigns_let(*program) ==> immutable_reported(old(self).errors@, final(self).errors@),
            program_assign_first(*program) ==> final(self).errors@.len() > old(self).errors@.len()
                && final(self).errors@[old(self).errors@.len() as int].message@ == "cannot assign to immutable location"@,
    {
        let mut i: usize = 0;
        while i < program.items.len()
            invariant
                self.kept(old(self)),
                i <= program.items@.len(),
                quiet_program(*program) ==> self.errors@ == old(self).errors@,
                program_assign_first(*program) ==> self.errors@ == old(self).errors@,
            decreases program.items@.len() - i,
        {
            proof {
                if quiet_program(*program) {
                    assert(quiet_item(program.items@[i as int]));
                }
            }
            proof {
                if program_assign_first(*program) {
                    assert(!(program.items@[i as int] is Constant));
                }
            }
            self.register_item(&program.items[i]);
            i = i + 1;
        }
        let ghost mid = *self;
        let mut i: usize = 0;
        while i < program.items.len()
            invariant
                self.kept(&mid),
                mid.kept(old(self)),
                i <= program.items@.len(),
                quiet_program(*program) ==> mid.errors@ == old(self).errors@,
                quiet_program(*program) ==> self.errors@ == mid.errors@,
                !mid.in_loop && (exists|j: int| 0 <= j < i && op_has_stray_jump(#[trigger] program.items@[j]))
                    ==> self.errors@.len() > mid.errors@.len(),
                (exists|j: int| 0 <= j < i && op_drops_result(#[trigger] program.items@[j]))
                    ==> unused_reported(old(self).errors@, self.errors@),
                (exists|j: int| 0 <= j < i && op_assigns_let(#[trigger] program.items@[j]))
                    ==> immutable_reported(old(self).errors@, self.errors@),
                program_assign_first(*program) ==> mid.errors@ == old(self).errors@,
                (forall|j: int| 0 <= j < i ==> quiet_item(#[trigger] program.items@[j])) ==> self.errors@
                    == mid.errors@,
                (exists|k: int| 0 <= k < i && op_assign_first(#[trigger] program.items@[k]) && forall|j: int|
                    0 <= j < k ==> quiet_item(#[trigger] program.items@[j])) ==> self.errors@.len() > mid.errors@.len()
                    && self.errors@[mid.errors@.len() as int].message@ == "cannot assign to immutable location"@,
            decreases program.items@.len() - i,
        {
            let ghost e0 = self.errors@;
            let ghost first_before = exists|k: int| 0 <= k < i && op_assign_first(#[trigger] program.items@[k]) && forall|j: int|
                0 <= j < k ==> quiet_item(#[trigger] program.items@[j]);
            let ghost quiet_before = forall|j: int| 0 <= j < i ==> quiet_item(#[trigger] program.items@[j]);
            proof {
                if quiet_program(*program) {
                    assert(quiet_item(program.items@[i as int]));
                }
            }
            self.check_item(&program.items[i]);
            proof {
                lemma_reports_kept(old(self).errors@, e0, self.errors@, self.errors@);
                lemma_reports_kept(old(self).errors@, old(self).errors@, e0, self.errors@);
                if first_before {
                    assert(self.errors@[mid.errors@.len() as int] == e0[mid.errors@.len() as int]);
                }
                if quiet_before && quiet_item(program.items@[i as int]) {
                    assert forall|j: int| 0 <= j < i + 1 implies quiet_item(#[trigger] program.items@[j]) by {
                        if j < i {
                            assert(quiet_item(program.items@[j]));
                        }
                    }
                }
                if exists|k: int| 0 <= k < i + 1 && op_assign_first(#[trigger] program.items@[k]) && forall|j: int|
                    0 <= j < k ==> quiet_item(#[trigger] program.items@[j]) {
                    let k = choose|k: int| 0 <= k < i + 1 && op_assign_first(#[trigger] program.items@[k]) && forall|j: int|
                        0 <= j < k ==> quiet_item(#[trigger] program.items@[j]);
                    if k < i {
                        assert(first_before);
                    } else {
                        assert(quiet_before);
                        assert(e0 == mid.errors@);
                    }
                }
                if quiet_before && !quiet_item(program.items@[i as int]) {
                    assert(!(forall|j: int| 0 <= j < i + 1 ==> quiet_item(#[trigger] program.items@[j])));
                }
            }
            i = i + 1;
        }
    }

    // -- Registration pass: build the type environment --

    pub fn register_item(&mut self, item: &Item)
        requires
            old(self).wf(),
        ensures
            final(self).in_loop == old(self).in_loop,
            !(*item is Constant) ==> final(self).errors@ == old(self).errors@,
            final(self).kept(old(self)),
            match *item {
                Item::Op(f) => one_more(old(self).env.function_list(), final(self).env.function_list())
                    && final(self).env.function_list().last().name@ == f.name@,
                Item::Struct(d) => one_more(old(self).env.struct_list(), final(self).env.struct_list())
                    && final(self).env.struct_list().last().name@ == d.name@,
                Item::Enum(d) => one_more(old(self).env.enum_list(), final(self).env.enum_list())
                    && final(self).env.enum_list().last().name@ == d.name@,
                Item::Ability(d) => one_more(old(self).env.ability_list(), final(self).env.ability_list())
                    && final(self).env.ability_list().last().name@ == d.name@,
                Item::Constant(c) => final(self).env.spec_lookup_var(c.name@) is Some,
                Item::TaskDecl(d) => one_more(old(self).env.task_list(), final(self).env.task_list())
                    && final(self).env.task_list().last().name@ == d.name@,
                Item::ExternBlock(e) => {
                    &&& final(self).env.function_list().len() == old(self).env.function_list().len() + e.functions@.len()
                    &&& forall|k: int| 0 <= k < old(self).env.function_list().len() ==> #[trigger] final(self).env.function_list()[k] == old(self).env.function_list()[k]
                    &&& forall|k: int| 0 <= k < e.functions@.len() ==> (#[trigger] final(self).env.function_list()[old(self).env.function_list().len() + k]).name@ == e.functions@[k].name@
                },
                _ => *final(self) == *old(self),
            },
        decreases item, 3int,
    {
        match item {
            Item::Op(f) => self.register_op(f),
            Item::Struct(s) => self.register_struct(s),
            Item::Enum(e) => self.register_enum(e),
            Item::Ability(a) => self.register_ability(a),
            Item::Constant(c) => self.register_const(c),
            Item::TaskDecl(t) => self.register_task(t),
            Item::ExternBlock(e) => {
                let mut i: usize = 0;
                while i < e.functions.len()
                    invariant
                    i <= e.functions@.len(),
                    self.env.function_list().len() == old(self).env.function_list().len() + i,
                    forall|k: int| 0 <= k < old(self).env.function_list().len() ==> #[trigger] self.env.function_list()[k] == old(self).env.function_list()[k],
                    forall|k: int| 0 <= k < i ==> (#[trigger] self.env.function_list()[old(self).env.function_list().len() + k]).name@ == e.functions@[k].name@,
                    self.errors@ == old(self).errors@,
                    self.errors@ == old(self).errors@,
                    self.kept(old(self)),
                    self.in_loop == old(self).in_loop,
                    decreases e.functions@.len() - i,
                {
                    self.register_op(&e.functions[i]);
                    i = i + 1;
                }
            },
            _ => {},
        }
    }

    /// The semantic types of a list of parameters.
    fn param_infos(&mut self, params: &Vec<Param>) -> (r: Vec<ParamInfo>)
        requires
            old(self).wf(),
        ensures
            final(self).errors@ == old(self).errors@,
            final(self).kept(old(self)),
            final(self).in_loop == old(self).in_loop,
            final(self).env.same_tables(&old(self).env),
            final(self).env.frames() == old(self).env.frames(),
            params_resolved(params@) ==> *final(self) == *old(self),
            params_recorded(old(self).env, params@, r@),
    {
        let mut out: Vec<ParamInfo> = Vec::new();
        let mut i: usize = 0;
        while i < params.len()
            invariant
                self.errors@ == old(self).errors@,
                self.kept(old(self)),
                self.in_loop == old(self).in_loop,
                self.env.same_tables(&old(self).env),
                self.env.frames() == old(self).env.frames(),
                i <= params@.len(),
                out@.len() == i,
                forall|k: int|
                    0 <= k < i ==> (#[trigger] out@[k]).name@ == params@[k].name@ && out@[k].is_mut
                        == params@[k].is_mut,
                (forall|k: int| 0 <= k < i ==> !has_inferred(#[trigger] params@[k].type_expr)) ==> {
                    &&& *self == *old(self)
                    &&& forall|k: int| 0 <= k < i ==> (#[trigger] out@[k]).ty@ == resolved(old(self).env, params@[k].type_expr)
                },
            decreases params@.len() - i,
        {
            let p = &params[i];
            let ty = self.resolve_type_expr(&p.type_expr);
            out.push(ParamInfo { name: p.name.clone(), ty, is_mut: p.is_mut });
            i = i + 1;
        }
        out
    }

    /// The declared return type of a function, or the unit type.
    fn return_type_of(&mut self, func: &OpDecl) -> (r: Type)
        requires
            old(self).wf(),
        ensures
            final(self).errors@ == old(self).errors@,
            final(self).kept(old(self)),
            final(self).in_loop == old(self).in_loop,
            final(self).env.same_tables(&old(self).env),
            final(self).env.frames() == old(self).env.frames(),
            return_recorded(old(self).env, func.return_type, r@),
            (func.return_type matches Some(t) ==> !has_inferred(t)) ==> *final(self) == *old(self),
    {
        match &func.return_type {
            Some(t) => self.resolve_type_expr(t),
            None => Type::Unit,
        }
    }

    fn register_op(&mut self, func: &OpDecl)
        requires
            old(self).wf(),
        ensures
            final(self).errors@ == old(self).errors@,
            final(self).kept(old(self)),
            final(self).in_loop == old(self).in_loop,
            one_more(old(self).env.function_list(), final(self).env.function_list()),
            signature_of(old(self).env, *func, final(self).env.function_list().last()),
            final(self).env.struct_list() == old(self).env.struct_list(),
            final(self).env.enum_list() == old(self).env.enum_list(),
            final(self).env.ability_list() == old(self).env.ability_list(),
            final(self).env.task_list() == old(self).env.task_list(),
            final(self).env.frames() == old(self).env.frames(),
    {
        let params = self.param_infos(&func.params);
        let return_type = self.return_type_of(func);
        let effects = declared_effects(&func.annotations);
        let mut generic_params: Vec<String> = Vec::new();
        let mut k: usize = 0;
        while k < func.generics.len()
            invariant
                k <= func.generics@.len(),
                generic_params@.len() == k,
                forall|g: int| 0 <= g < k ==> (#[trigger] generic_params@[g])@ == func.generics@[g].name@,
            decreases func.generics@.len() - k,
        {
            generic_params.push(func.generics[k].name.clone());
            k = k + 1;
        }
        self.env.register_function(
            FunctionInfo {
                name: func.name.clone(),
                params,
                return_type,
                generic_params,
                effects,
                is_pub: func.is_pub,
            },
        );
    }

    /// The semantic types of a list of field declarations.
    fn field_infos(&mut self, fields: &Vec<crate::ast::FieldDecl>) -> (r: Vec<FieldInfo>)
        requires
            old(self).wf(),
        ensures
            final(self).errors@ == old(self).errors@,
            final(self).kept(old(self)),
            final(self).in_loop == old(self).in_loop,
            final(self).env.same_tables(&old(self).env),
            final(self).env.frames() == old(self).env.frames(),
            fields_recorded(old(self).env, fields@, r@),
    {
        let mut out: Vec<FieldInfo> = Vec::new();
        let mut i: usize = 0;
        while i < fields.len()
            invariant
                self.errors@ == old(self).errors@,
                self.kept(old(self)),
                self.in_loop == old(self).in_loop,
                self.env.same_tables(&old(self).env),
                self.env.frames() == old(self).env.frames(),
                i <= fields@.len(),
                out@.len() == i,
                forall|k: int| 0 <= k < i ==> (#[trigger] out@[k]).name@ == fields@[k].name@,
                (forall|k: int| 0 <= k < i ==> !has_inferred(#[trigger] fields@[k].type_expr)) ==> {
                    &&& *self == *old(self)
                    &&& forall|k: int| 0 <= k < i ==> (#[trigger] out@[k]).ty@ == resolved(old(self).env, fields@[k].type_expr)
                },
            decreases fields@.len() - i,
        {
            let ty = self.resolve_type_expr(&fields[i].type_expr);
            out.push(FieldInfo { name: fields[i].name.clone(), ty });
            i = i + 1;
        }
        out
    }

    /// The names of a list of generic parameters.
    fn generic_names(generics: &Vec<crate::ast::GenericParam>) -> (r: Vec<String>)
        ensures
            r@.len() == generics@.len(),
            forall|i: int| 0 <= i < generics@.len() ==> (#[trigger] r@[i])@ == generics@[i].name@,
    {
        let mut out: Vec<String> = Vec::new();
        let mut k: usize = 0;
        while k < generics.len()
            invariant
                k <= generics@.len(),
                out@.len() == k,
                forall|i: int| 0 <= i < k ==> (#[trigger] out@[i])@ == generics@[i].name@,
            decreases generics@.len() - k,
        {
            out.push(generics[k].name.clone());
            k = k + 1;
        }
        out
    }

    fn register_struct(&mut self, decl: &StructDecl)
        requires
            old(self).wf(),
        ensures
            final(self).errors@ == old(self).errors@,
            final(self).kept(old(self)),
            final(self).in_loop == old(self).in_loop,
            one_more(old(self).env.struct_list(), final(self).env.struct_list()),
            final(self).env.struct_list().last().id == old(self).env.type_counter(),
            final(self).env.struct_list().last().name@ == decl.name@,
            final(self).env.struct_list().last().fields@.len() == decl.fields@.len(),
            forall|i: int|
                0 <= i < decl.fields@.len() ==> (#[trigger] final(self).env.struct_list().last().fields@[i]).name@
                    == decl.fields@[i].name@,
            names_of_generics(decl.generics@, final(self).env.struct_list().last().generic_params@),
            final(self).env.struct_list().last().methods@.len() == 0,
    {
        let id = self.env.fresh_type_id();
        let fields = self.field_infos(&decl.fields);
        let generic_params = Self::generic_names(&decl.generics);
        self.env.register_struct(
            StructInfo { id, name: decl.name.clone(), fields, generic_params, methods: Vec::new() },
        );
    }

    fn register_enum(&mut self, decl: &EnumDecl)
        requires
            old(self).wf(),
        ensures
            final(self).errors@ == old(self).errors@,
            final(self).kept(old(self)),
            final(self).in_loop == old(self).in_loop,
            one_more(old(self).env.enum_list(), final(self).env.enum_list()),
            final(self).env.enum_list().last().id == old(self).env.type_counter(),
            final(self).env.enum_list().last().name@ == decl.name@,
            final(self).env.enum_list().last().variants@.len() == decl.variants@.len(),
            forall|i: int|
                0 <= i < decl.variants@.len() ==> {
                    &&& (#[trigger] final(self).env.enum_list().last().variants@[i]).name@ == decl.variants@[i].name@
                    &&& final(self).env.enum_list().last().variants@[i].fields@.len() == decl.variants@[i].fields@.len()
                },
            names_of_generics(decl.generics@, final(self).env.enum_list().last().generic_params@),
    {
        let id = self.env.fresh_type_id();
        let mut variants: Vec<VariantInfo> = Vec::new();
        let mut i: usize = 0;
        while i < decl.variants.len()
            invariant
                self.errors@ == old(self).errors@,
                self.kept(old(self)),
                self.in_loop == old(self).in_loop,
                self.env.same_tables(&old(self).env),
                i <= decl.variants@.len(),
                variants@.len() == i,
                forall|k: int|
                    0 <= k < i ==> {
                        &&& (#[trigger] variants@[k]).name@ == decl.variants@[k].name@
                        &&& variants@[k].fields@.len() == decl.variants@[k].fields@.len()
                    },
            decreases decl.variants@.len() - i,
        {
            let fields = self.field_infos(&decl.variants[i].fields);
            variants.push(VariantInfo { name: decl.variants[i].name.clone(), fields });
            i = i + 1;
        }
        let generic_params = Self::generic_names(&decl.generics);
        self.env.register_enum(EnumInfo { id, name: decl.name.clone(), variants, generic_params });
    }

    /// The signature of an ability method or task entry: public, with no
    /// generic parameters and no effects.
    fn entry_info(&mut self, name: &String, params: &Vec<Param>, ret: &Option<crate::ast::TypeExpr>) -> (r: FunctionInfo)
        requires
            old(self).wf(),
        ensures
            final(self).errors@ == old(self).errors@,
            final(self).kept(old(self)),
            final(self).in_loop == old(self).in_loop,
            final(self).env.same_tables(&old(self).env),
            final(self).env.frames() == old(self).env.frames(),
            r.name@ == name@,
            params_recorded(old(self).env, params@, r.params@),
            params_resolved(params@) ==> return_recorded(old(self).env, *ret, r.return_type@),
            r.generic_params@.len() == 0,
            r.effects@.len() == 0,
            r.is_pub,
    {
        let params = self.param_infos(params);
        let return_type = match ret {
            Some(t) => self.resolve_type_expr(t),
            None => Type::Unit,
        };
        FunctionInfo {
            name: name.clone(),
            params,
            return_type,
            generic_params: Vec::new(),
            effects: Vec::new(),
            is_pub: true,
        }
    }

    fn register_ability(&mut self, decl: &AbilityDecl)
        requires
            old(self).wf(),
        ensures
            final(self).errors@ == old(self).errors@,
            final(self).kept(old(self)),
            final(self).in_loop == old(self).in_loop,
            one_more(old(self).env.ability_list(), final(self).env.ability_list()),
            final(self).env.ability_list().last().id == old(self).env.type_counter(),
            final(self).env.ability_list().last().name@ == decl.name@,
            final(self).env.ability_list().last().methods@.len() == decl.methods@.len(),
            forall|i: int|
                0 <= i < decl.methods@.len() ==> (#[trigger] final(self).env.ability_list().last().methods@[i]).name@
                    == decl.methods@[i].name@,
            names_of_generics(decl.generics@, final(self).env.ability_list().last().generic_params@),
    {
        let id = self.env.fresh_type_id();
        let mut methods: Vec<FunctionInfo> = Vec::new();
        let mut i: usize = 0;
        while i < decl.methods.len()
            invariant
                self.errors@ == old(self).errors@,
                self.kept(old(self)),
                self.in_loop == old(self).in_loop,
                self.env.same_tables(&old(self).env),
                i <= decl.methods@.len(),
                methods@.len() == i,
                forall|k: int| 0 <= k < i ==> (#[trigger] methods@[k]).name@ == decl.methods@[k].name@,
            decreases decl.methods@.len() - i,
        {
            let m = &decl.methods[i];
            let info = self.entry_info(&m.name, &m.params, &m.return_type);
            methods.push(info);
            i = i + 1;
        }
        let generic_params = Self::generic_names(&decl.generics);
        self.env.register_ability(AbilityInfo { id, name: decl.name.clone(), methods, generic_params });
    }

    fn register_const(&mut self, decl: &ConstDecl)
        requires
            old(self).wf(),
        ensures
            final(self).in_loop == old(self).in_loop,
            final(self).kept(old(self)),
            final(self).env.spec_lookup_var(decl.name@) matches Some(b) && !b.mutable && annotated_fits(
                old(self).env,
                decl.type_expr,
                b.ty@,
            ),
        decreases decl, 0int,
    {
        let ty = match &decl.type_expr {
            Some(t) => self.resolve_type_expr(t),
            None => self.infer_expr_type(&decl.value),
        };
        self.env.bind_var(decl.name.as_str(), ty, false);
    }

    fn register_task(&mut self, decl: &TaskDecl)
        requires
            old(self).wf(),
        ensures
            final(self).errors@ == old(self).errors@,
            final(self).kept(old(self)),
            final(self).in_loop == old(self).in_loop,
            one_more(old(self).env.task_list(), final(self).env.task_list()),
            final(self).env.task_list().last().name@ == decl.name@,
            final(self).env.task_list().last().entries@.len() == decl.entries@.len(),
            forall|i: int|
                0 <= i < decl.entries@.len() ==> (#[trigger] final(self).env.task_list().last().entries@[i]).name@
                    == decl.entries@[i].name@,
    {
        let mut entries: Vec<FunctionInfo> = Vec::new();
        let mut i: usize = 0;
        while i < decl.entries.len()
            invariant
                self.errors@ == old(self).errors@,
                self.kept(old(self)),
                self.in_loop == old(self).in_loop,
                self.env.same_tables(&old(self).env),
                i <= decl.entries@.len(),
                entries@.len() == i,
                forall|k: int| 0 <= k < i ==> (#[trigger] entries@[k]).name@ == decl.entries@[k].name@,
            decreases decl.entries@.len() - i,
        {
            let e = &decl.entries[i];
            let info = self.entry_info(&e.name, &e.params, &e.return_type);
            entries.push(info);
            i = i + 1;
        }
        self.env.register_task(TaskInfo { name: decl.name.clone(), entries });
    }

    // -- Checking pass: function bodies and type consistency --

    pub(crate) fn check_item(&mut self, item: &Item)
        requires
            old(self).wf(),
        ensures
            final(self).in_loop == old(self).in_loop,
            quiet_item(*item) ==> final(self).errors@ == old(self).errors@,
            final(self).kept(old(self)),
            !old(self).in_loop && op_has_stray_jump(*item) ==> final(self).errors@.len()
                > old(self).errors@.len(),
            op_drops_result(*item) ==> unused_reported(old(self).errors@, final(self).errors@),
            op_assigns_let(*item) ==> immutable_reported(old(self).errors@, final(self).errors@),
            op_assign_first(*item) ==> final(self).errors@.len() > old(self).errors@.len()
                && final(self).errors@[old(self).errors@.len() as int].message@ == "cannot assign to immutable location"@,
        decreases item, 2int,
    {
        match item {
            Item::Op(f) => self.check_op(f),
            Item::ImplBlock(block) => {
                self.check_methods(&block.methods);
            },
            Item::TaskBody(tb) => self.check_task_body(tb),
            Item::Constant(c) => self.check_const(c),
            Item::StaticAssert(sa) => self.check_static_assert(sa),
            _ => {},
        }
    }

    /// Bind parameters in the innermost scope.
    fn bind_params(&mut self, params: &Vec<Param>)
        requires
            old(self).wf(),
        ensures
            final(self).errors@ == old(self).errors@,
            final(self).kept(old(self)),
            final(self).in_loop == old(self).in_loop,
            param_names(params@).subset_of(bound_names(final(self).env)),
    {
        let mut i: usize = 0;
        while i < params.len()
            invariant
                self.errors@ == old(self).errors@,
                self.kept(old(self)),
                self.in_loop == old(self).in_loop,
                i <= params@.len(),
                forall|k: int| 0 <= k < i ==> (#[trigger] self.env.spec_lookup_var(params@[k].name@)) is Some,
            decreases params@.len() - i,
        {
            let ghost env_top = self.env;
            let ty = self.resolve_type_expr(&params[i].type_expr);
            let ghost frames = self.env.frames();
            let ghost b = VarBinding { ty, mutable: params[i as int].is_mut, _initialized: true };
            let ghost nm = params@[i as int].name@;
            proof {
                assert(frames.len() >= 1);
            }
            self.env.bind_var(params[i].name.as_str(), ty, params[i].is_mut);
            proof {
                assert(nm.push('_').len() != nm.len());
                law_bind_then_lookup(frames, nm, b, nm.push('_'));
                assert forall|k: int| 0 <= k < i + 1 implies (#[trigger] self.env.spec_lookup_var(
                    params@[k].name@,
                )) is Some by {
                    if params@[k].name@ != nm {
                        assert(env_top.spec_lookup_var(params@[k].name@) is Some);
                        law_bind_then_lookup(frames, nm, b, params@[k].name@);
                    }
                }
            }
            i = i + 1;
        }
        proof {
            assert forall|n: Seq<char>| param_names(params@).contains(n) implies bound_names(
                self.env,
            ).contains(n) by {
                let k = choose|k: int| 0 <= k < params@.len() && (#[trigger] params@[k]).name@ == n;
                assert(self.env.spec_lookup_var(params@[k].name@) is Some);
            }
        }
    }

    fn check_op(&mut self, func: &OpDecl)
        requires
            old(self).wf(),
        ensures
            final(self).in_loop == old(self).in_loop,
            quiet_op(*func) ==> final(self).errors@ == old(self).errors@,
            final(self).kept(old(self)),
            !old(self).in_loop && (func.body matches Some(b) && has_stray_jump(b)) ==> final(self).errors@.len()
                > old(self).errors@.len(),
            op_drops_result(Item::Op(*func)) ==> unused_reported(old(self).errors@, final(self).errors@),
            op_assigns_let(Item::Op(*func)) ==> immutable_reported(old(self).errors@, final(self).errors@),
            op_assign_first(Item::Op(*func)) ==> final(self).errors@.len() > old(self).errors@.len()
                && final(self).errors@[old(self).errors@.len() as int].message@ == "cannot assign to immutable location"@,
        decreases func, 1int,
    {
        let return_type = self.return_type_of(func);
        self.current_return_type = Some(return_type);
        let outer_effects = self.current_effects.take();
        self.current_effects = Some(declared_effects(&func.annotations));
        self.env.push_scope();
        self.bind_params(&func.params);
        let ghost e0 = self.errors@;
        if let Some(body) = &func.body {
            proof {
                if quiet_op(*func) {
                    lemma_quiet_block_grows(*body, param_names(func.params@), bound_names(self.env));
                }
                if op_assign_first(Item::Op(*func)) {
                    lemma_assign_first_grows(*body, param_names(func.params@), bound_names(self.env));
                }
            }
            self.check_block(body);
        }
        self.env.pop_scope();
        self.current_return_type = None;
        self.current_effects = outer_effects;
        proof {
            lemma_reports_kept(old(self).errors@, e0, self.errors@, self.errors@);
        }
    }

    fn check_task_body(&mut self, tb: &TaskBodyDecl)
        requires
            old(self).wf(),
        ensures
            final(self).in_loop == old(self).in_loop,
            quiet_block(tb.body, param_names(tb.params@)) ==> final(self).errors@ == old(self).errors@,
            final(self).kept(old(self)),
            !old(self).in_loop && has_stray_jump(tb.body) ==> final(self).errors@.len() > old(self).errors@.len(),
        decreases tb, 1int,
    {
        self.env.push_scope();
        self.bind_params(&tb.params);
        proof {
            if quiet_block(tb.body, param_names(tb.params@)) {
                lemma_quiet_block_grows(tb.body, param_names(tb.params@), bound_names(self.env));
            }
        }
        self.check_block(&tb.body);
        self.env.pop_scope();
    }

    fn check_const(&mut self, decl: &ConstDecl)
        requires
            old(self).wf(),
        ensures
            final(self).in_loop == old(self).in_loop,
            final(self).kept(old(self)),
            decl.type_expr is None && quiet_expr(decl.value, bound_names(old(self).env)) ==> final(self).errors@
                == old(self).errors@,
            decl.value matches Expr::Literal(l) ==> const_checked(old(self).env, *decl, l.value, old(self).errors@, final(self).errors@),
        decreases decl, 1int,
    {
        let declared = match &decl.type_expr {
            Some(t) => Some(self.resolve_type_expr(t)),
            None => None,
        };
        let inferred = self.infer_expr_type(&decl.value);
        if let Some(declared_ty) = &declared {
            if !self.types_compatible(declared_ty, &inferred) && !(is_int_literal(&decl.value)
                && declared_ty.is_integer()) {
                let mut m = String::from_str("constant '");
                m.append(decl.name.as_str());
                m.append("' declared as ");
                m.append(declared_ty.display_name().as_str());
                m.append(" but initialized with ");
                m.append(inferred.display_name().as_str());
                self.report(Diagnostic::error(m).with_span(decl.span));
            }
        }
    }

    fn check_static_assert(&mut self, sa: &StaticAssertNode)
        requires
            old(self).wf(),
        ensures
            final(self).in_loop == old(self).in_loop,
            final(self).kept(old(self)),
            sa.condition matches Expr::Literal(l) ==> reported_if(
                old(self).errors@,
                final(self).errors@,
                !(l.value is Bool),
                "static_assert condition must be a Bool expression"@,
                sa.span,
            ),
        decreases sa, 1int,
    {
        let ty = self.infer_expr_type(&sa.condition);
        if !matches!(ty, Type::Bool) && !ty.is_error() {
            self.report(
                Diagnostic::error(String::from_str("static_assert condition must be a Bool expression"))
                    .with_span(sa.span),
            );
        }
    }

    pub(crate) fn check_block(&mut self, block: &Block)
        requires
            old(self).wf(),
        ensures
            final(self).in_loop == old(self).in_loop,
            quiet_block(*block, bound_names(old(self).env)) ==> final(self).errors@ == old(self).errors@,
            final(self).kept(old(self)),
            !old(self).in_loop && has_stray_jump(*block) ==> final(self).errors@.len()
                > old(self).errors@.len(),
            block_discards(*block) || block_drops_let(*block) ==> unused_reported(old(self).errors@, final(self).errors@),
            block_assigns_let(*block) ==> immutable_reported(old(self).errors@, final(self).errors@),
            old(self).in_loop && jumps_only(*block) ==> final(self).errors@ == old(self).errors@,
            assign_first(*block, bound_names(old(self).env)) ==> final(self).errors@.len() > old(self).errors@.len()
                && final(self).errors@[old(self).errors@.len() as int].message@ == "cannot assign to immutable location"@,
        decreases block, 1int,
    {
        let ghost n0 = bound_names(self.env);
        let mut i: usize = 0;
        while i < block.stmts.len()
            invariant
                n0 == bound_names(old(self).env),
                quiet_upto(block.stmts@, n0, i as int) ==> self.errors@ == old(self).errors@ && (n0 + bound_before(
                    block.stmts@,
                    i as int,
                )).subset_of(bound_names(self.env)),
                self.kept(old(self)),
                self.in_loop == old(self).in_loop,
                i <= block.stmts@.len(),
                !old(self).in_loop && (exists|j: int| 0 <= j < i && is_jump(#[trigger] block.stmts@[j]))
                    ==> self.errors@.len() > old(self).errors@.len(),
                (exists|j: int| 0 <= j < i && stmt_discards(#[trigger] block.stmts@[j]))
                    ==> unused_reported(old(self).errors@, self.errors@),
                (exists|j: int| j + 1 < i && #[trigger] let_then_drop(block.stmts@, j))
                    ==> unused_reported(old(self).errors@, self.errors@),
                (exists|j: int| j + 1 < i && #[trigger] let_then_assign(block.stmts@, j))
                    ==> immutable_reported(old(self).errors@, self.errors@),
                i > 0 ==> let_bound(self.env, block.stmts@[i - 1]),
                old(self).in_loop && jumps_only(*block) ==> self.errors@ == old(self).errors@,
                (exists|j: int| #[trigger] let_then_assign(block.stmts@, j) && j + 1 < i && quiet_upto(block.stmts@, n0, j + 1))
                    ==> self.errors@.len() > old(self).errors@.len() && self.errors@[old(self).errors@.len() as int].message@
                    == "cannot assign to immutable location"@,
            decreases block.stmts@.len() - i,
        {
            let ghost here = bound_names(self.env);
            let ghost here_errs = self.errors@;
            let ghost here_env = self.env;
            let ghost assigned_before = exists|j: int|
                #[trigger] let_then_assign(block.stmts@, j) && j + 1 < i && quiet_upto(block.stmts@, n0, j + 1);
            proof {
                if quiet_upto(block.stmts@, n0, i + 1) {
                    assert(quiet_upto(block.stmts@, n0, i as int));
                    assert(quiet_stmt(block.stmts@[i as int], n0 + bound_before(block.stmts@, i as int)));
                    lemma_quiet_stmt_grows(block.stmts@[i as int], n0 + bound_before(block.stmts@, i as int), here);
                }
            }
            self.check_stmt(&block.stmts[i]);
            proof {
                lemma_reports_kept(old(self).errors@, here_errs, self.errors@, self.errors@);
                lemma_reports_kept(old(self).errors@, old(self).errors@, here_errs, self.errors@);
                if i > 0 && let_then_assign(block.stmts@, i - 1) {
                    assert(!assignable(here_env, block.stmts@[i as int]->Assign_0.target));
                    assert(immutable_reported(here_errs, self.errors@));
                }
                if assigned_before {
                    assert(self.errors@[old(self).errors@.len() as int] == here_errs[old(self).errors@.len() as int]);
                }
                if i > 0 && let_then_assign(block.stmts@, i - 1) && quiet_upto(block.stmts@, n0, i as int) {
                    assert(here_errs == old(self).errors@);
                }
                assert((exists|j: int|
                    #[trigger] let_then_assign(block.stmts@, j) && j + 1 < i + 1 && quiet_upto(block.stmts@, n0, j + 1))
                    ==> self.errors@.len() > old(self).errors@.len() && self.errors@[old(self).errors@.len() as int].message@
                    == "cannot assign to immutable location"@) by {
                    if exists|j: int|
                        #[trigger] let_then_assign(block.stmts@, j) && j + 1 < i + 1 && quiet_upto(block.stmts@, n0, j + 1) {
                        let j = choose|j: int|
                            #[trigger] let_then_assign(block.stmts@, j) && j + 1 < i + 1 && quiet_upto(block.stmts@, n0, j + 1);
                        if j + 1 < i {
                            assert(assigned_before);
                        }
                    }
                }
                if i > 0 && let_then_drop(block.stmts@, i - 1) {
                    assert(gives_result(here_env, block.stmts@[i as int]->Expr_0.expr));
                }
                if quiet_upto(block.stmts@, n0, i + 1) {
                    assert(quiet_upto(block.stmts@, n0, i as int));
                    assert(bound_before(block.stmts@, i + 1) == bound_before(block.stmts@, i as int)
                        + declared_names(block.stmts@[i as int]));
                    assert forall|n: Seq<char>| declared_names(block.stmts@[i as int]).contains(n) implies bound_names(
                        self.env,
                    ).contains(n) by {
                    }
                }
            }
            i = i + 1;
        }
    }

    /// Check a loop body in a scope of its own; afterwards the checker is
    /// inside a loop exactly when it was before.
    fn check_loop_body(&mut self, block: &Block)
        requires
            old(self).wf(),
        ensures
            final(self).kept(old(self)),
            final(self).in_loop == old(self).in_loop,
            block_discards(*block) ==> unused_reported(old(self).errors@, final(self).errors@),
            jumps_only(*block) ==> final(self).errors@ == old(self).errors@,
        decreases block, 2int,
    {
        let outer = self.in_loop;
        self.env.push_scope();
        self.in_loop = true;
        self.check_block(block);
        self.in_loop = outer;
        self.env.pop_scope();
    }

    /// Report a declared type that a variable's initial value does not fit.
    fn check_declared(&mut self, name: &String, declared: &Type, inferred: &Type, value: &Expr, span: crate::diagnostics::Span)
        requires
            old(self).wf(),
        ensures
            final(self).kept(old(self)),
            final(self).env == old(self).env,
            final(self).in_loop == old(self).in_loop,
            reported_if(
                old(self).errors@,
                final(self).errors@,
                !compatible(declared@, inferred@) && !(inferred@ is Error) && !literal_fits(declared@, *value),
                "cannot assign "@ + display(inferred@) + " to variable '"@ + name@ + "' of type "@ + display(declared@),
                span,
            ),
    {
        if !self.types_compatible(declared, inferred) && !inferred.is_error() && !(is_int_literal(value)
            && declared.is_integer()) {
            let mut m = String::from_str("cannot assign ");
            m.append(inferred.display_name().as_str());
            m.append(" to variable '");
            m.append(name.as_str());
            m.append("' of type ");
            m.append(declared.display_name().as_str());
            self.report(Diagnostic::error(m).with_span(span));
        }
    }

    /// Report a condition that is not a `Bool`.
    fn check_condition(&mut self, ty: &Type, message: String, span: crate::diagnostics::Span)
        requires
            old(self).wf(),
        ensures
            final(self).kept(old(self)),
            final(self).env == old(self).env,
            final(self).in_loop == old(self).in_loop,
            reported_if(old(self).errors@, final(self).errors@, !(ty@ is Bool) && !(ty@ is Error), message@, span),
    {
        if !matches!(ty, Type::Bool) && !ty.is_error() {
            self.report(Diagnostic::error(message).with_span(span));
        }
    }

    #[verifier::rlimit(60)]
    pub fn check_stmt(&mut self, stmt: &Stmt)
        requires
            old(self).wf(),
        ensures
            final(self).kept(old(self)),
            quiet_stmt(*stmt, bound_names(old(self).env)) ==> final(self).errors@ == old(self).errors@
                && bound_names(old(self).env).subset_of(bound_names(final(self).env)),
            final(self).in_loop == old(self).in_loop,
            stmt_discards(*stmt) ==> unused_reported(old(self).errors@, final(self).errors@),
            stmt_jump_safe(*stmt) && (old(self).in_loop || *stmt is Loop || *stmt is While) ==> final(self).errors@
                == old(self).errors@,
            (*stmt matches Stmt::For(f) && quiet_expr(f.iterable, bound_names(old(self).env)) && jumps_only(f.body))
                ==> final(self).errors@ == old(self).errors@,
            match *stmt {
                Stmt::Let(s) => {
                    &&& declared_mismatch(old(self).env, s.type_expr, s.value) matches Some((d, v)) ==> {
                        &&& final(self).errors@.len() == old(self).errors@.len() + 1
                        &&& final(self).errors@.last().message@ == mismatch_message(s.name@, d, v)
                        &&& final(self).errors@.last().span == Some(s.span)
                    }
                    &&& final(self).env.spec_lookup_var(s.name@) matches Some(b) && !b.mutable
                    &&& match s.type_expr {
                        Some(t) => names_result(t) && !has_inferred(t)
                            ==> final(self).env.spec_lookup_var(s.name@).unwrap().ty@ is Result,
                        None => true,
                    }
                },
                Stmt::Var(s) => {
                    &&& declared_mismatch(old(self).env, s.type_expr, s.value) matches Some((d, v)) ==> {
                        &&& final(self).errors@.len() == old(self).errors@.len() + 1
                        &&& final(self).errors@.last().message@ == mismatch_message(s.name@, d, v)
                        &&& final(self).errors@.last().span == Some(s.span)
                    }
                    &&& final(self).env.spec_lookup_var(s.name@) matches Some(b) && b.mutable
                },
                Stmt::Assign(s) => !assignable(old(self).env, s.target) ==> {
                    &&& final(self).errors@.len() > old(self).errors@.len()
                    &&& final(self).errors@[old(self).errors@.len() as int].message@
                        == "cannot assign to immutable location"@
                    &&& final(self).errors@[old(self).errors@.len() as int].span == Some(expr_span(s.target))
                },
                Stmt::Expr(s) => {
                    &&& gives_result(old(self).env, s.expr) ==> {
                        &&& unused_reported(old(self).errors@, final(self).errors@)
                        &&& final(self).errors@.len() > old(self).errors@.len()
                        &&& exists|t: Seq<char>| final(self).errors@.last().message@ == #[trigger] unused_result_message(t)
                    }
                    &&& s.expr matches Expr::Call(c) ==> match called_function(old(self).env, c) {
                        Some(f) => (f.params@.len() == c.args@.len() && missing_effect(old(self).current_effects, f)
                            is Some) ==> {
                            &&& final(self).errors@.len() > old(self).errors@.len()
                            &&& final(self).errors@[old(self).errors@.len() as int].message@ == effect_message(
                                c.callee->Identifier_0.name@,
                                missing_effect(old(self).current_effects, f).unwrap(),
                            )
                        },
                        None => true,
                    }
                },
                Stmt::Break(s) => if old(self).in_loop {
                    final(self).errors == old(self).errors
                } else {
                    &&& final(self).errors@.len() == old(self).errors@.len() + 1
                    &&& final(self).errors@.last().message@ == "'break' used outside of a loop"@
                    &&& final(self).errors@.last().span == Some(s.span)
                },
                Stmt::Continue(s) => if old(self).in_loop {
                    final(self).errors == old(self).errors
                } else {
                    &&& final(self).errors@.len() == old(self).errors@.len() + 1
                    &&& final(self).errors@.last().message@ == "'continue' used outside of a loop"@
                    &&& final(self).errors@.last().span == Some(s.span)
                },
                Stmt::Match(m) => match leaf_type(old(self).env, m.subject) {
                    Some(t) => match enum_uncovered(old(self).env, t, m.arms@) {
                        Some(v) => {
                            &&& final(self).errors@.len() > old(self).errors@.len()
                            &&& final(self).errors@[old(self).errors@.len() as int].message@ == uncovered_message(v)
                        },
                        None => true,
                    },
                    None => true,
                },
                _ => true,
            },
        decreases stmt, 1int,
    {
        match stmt {
            Stmt::Let(s) => {
                proof {
                    if leaf_type(old(self).env, s.value) is Some {
                        assert(quiet_expr(s.value, bound_names(old(self).env)));
                    }
                }
                let inferred = self.infer_expr_type(&s.value);
                let ty = match &s.type_expr {
                    Some(declared) => {
                        let ghost env_before = self.env;
                        let declared_type = self.resolve_type_expr(declared);
                        proof {
                            if names_result(*declared) {
                                lemma_result_resolves(env_before, *declared);
                            }
                        }
                        let ghost e_before = self.errors@;
                        proof {
                            if declared_mismatch(old(self).env, s.type_expr, s.value) is Some {
                                assert(e_before == old(self).errors@);
                                assert(inferred@ == leaf_type(old(self).env, s.value).unwrap());
                                assert(declared_type@ == resolved(old(self).env, *declared));
                            }
                        }
                        self.check_declared(&s.name, &declared_type, &inferred, &s.value, s.span);
                        declared_type
                    },
                    None => inferred,
                };
                let ghost e_mid = self.errors@;
                let ghost frames = self.env.frames();
                let ghost ty_g = ty;
                self.env.bind_var(s.name.as_str(), ty, false);
                proof {
                    assert(s.name@.push('_').len() != s.name@.len());
                    assert(frames.len() >= 1);
                    law_bind_then_lookup(
                        frames,
                        s.name@,
                        VarBinding { ty: ty_g, mutable: false, _initialized: true },
                        s.name@.push('_'),
                    );
                    assert forall|n: Seq<char>| lookup_var_in(frames, n) is Some implies (
                    #[trigger] lookup_var_in(self.env.frames(), n)) is Some by {
                        if n != s.name@ {
                            law_bind_then_lookup(
                                frames,
                                s.name@,
                                VarBinding { ty: ty_g, mutable: false, _initialized: true },
                                n,
                            );
                        }
                    }
                    assert(self.env.spec_lookup_var(s.name@) == Some(
                        VarBinding { ty: ty_g, mutable: false, _initialized: true },
                    ));
                }
            },
            Stmt::Var(s) => {
                proof {
                    if leaf_type(old(self).env, s.value) is Some {
                        assert(quiet_expr(s.value, bound_names(old(self).env)));
                    }
                }
                let inferred = self.infer_expr_type(&s.value);
                let ty = match &s.type_expr {
                    Some(declared) => {
                        let ghost env_before = self.env;
                        let declared_type = self.resolve_type_expr(declared);
                        proof {
                            if declared_mismatch(old(self).env, s.type_expr, s.value) is Some {
                                assert(inferred@ == leaf_type(old(self).env, s.value).unwrap());
                                assert(declared_type@ == resolved(old(self).env, *declared));
                            }
                        }
                        self.check_declared(&s.name, &declared_type, &inferred, &s.value, s.span);
                        declared_type
                    },
                    None => inferred,
                };
                let ghost frames = self.env.frames();
                let ghost ty_g = ty;
                self.env.bind_var(s.name.as_str(), ty, true);
                proof {
                    assert(s.name@.push('_').len() != s.name@.len());
                    assert(frames.len() >= 1);
                    law_bind_then_lookup(
                        frames,
                        s.name@,
                        VarBinding { ty: ty_g, mutable: true, _initialized: true },
                        s.name@.push('_'),
                    );
                    assert forall|n: Seq<char>| lookup_var_in(frames, n) is Some implies (
                    #[trigger] lookup_var_in(self.env.frames(), n)) is Some by {
                        if n != s.name@ {
                            law_bind_then_lookup(
                                frames,
                                s.name@,
                                VarBinding { ty: ty_g, mutable: true, _initialized: true },
                                n,
                            );
                        }
                    }
                }
            },
            Stmt::Assign(s) => {
                if !self.check_lvalue_mutability(&s.target) {
                    self.report(
                        Diagnostic::error(String::from_str("cannot assign to immutable location"))
                            .with_span(s.target.span())
                            .with_help(String::from_str("make the base variable mutable with 'var' or 'mut'")),
                    );
                }
                let _value_ty = self.infer_expr_type(&s.value);
            },
            Stmt::Expr(s) => {
                proof {
                    if quiet_expr(s.expr, Set::empty()) {
                        lemma_quiet_expr_grows(s.expr, Set::empty(), bound_names(self.env));
                    }
                }
                let ty = self.infer_expr_type(&s.expr);
                if ty.is_must_use() {
                    let mut m = String::from_str("unused result of type ");
                    m.append(ty.display_name().as_str());
                    m.append(" that must be handled");
                    assert(m@ == unused_result_message(display(ty@)));
                    let ghost n_before = self.errors@.len();
                    self.report(
                        Diagnostic::error(m)
                            .with_span(s.expr.span())
                            .with_help(String::from_str("handle the value with 'match', '?', or assign it to a variable")),
                    );
                    assert(is_unused_report(self.errors@[n_before as int]));
                }
            },
            Stmt::If(s) => {
                let cond_ty = self.infer_expr_type(&s.condition);
                let mut m = String::from_str("if condition must be Bool, found ");
                m.append(cond_ty.display_name().as_str());
                self.check_condition(&cond_ty, m, s.condition.span());
                let ghost e0 = self.errors@;
                self.env.push_scope();
                self.check_block(&s.then_block);
                self.env.pop_scope();
                let ghost e1 = self.errors@;
                self.check_else_ifs(&s.else_ifs);
                let ghost e2 = self.errors@;
                if let Some(block) = &s.else_block {
                    self.env.push_scope();
                    self.check_block(block);
                    self.env.pop_scope();
                }
                proof {
                    lemma_reports_kept(old(self).errors@, e0, e1, self.errors@);
                    lemma_reports_kept(old(self).errors@, e1, e2, self.errors@);
                    lemma_reports_kept(old(self).errors@, e2, self.errors@, self.errors@);
                }
            },
            Stmt::Match(s) => {
                proof {
                    if leaf_type(old(self).env, s.subject) is Some {
                        assert(quiet_expr(s.subject, bound_names(old(self).env)));
                    }
                }
                let subject_ty = self.infer_expr_type(&s.subject);
                // a match on an enum covers each of its variants
                let missing = match &subject_ty {
                    Type::Enum { id, .. } => match self.env.get_enum(*id) {
                        Some(info) => first_uncovered(&info.variants, &s.arms),
                        None => None,
                    },
                    _ => None,
                };
                if let Some(v) = missing {
                    let mut m = String::from_str("non-exhaustive match: variant '");
                    m.append(v.as_str());
                    m.append("' not covered");
                    self.report(Diagnostic::error(m).with_span(s.span));
                }
                let ghost e0 = self.errors@;
                self.check_match_arms(&s.arms);
                proof {
                    lemma_reports_kept(old(self).errors@, e0, self.errors@, self.errors@);
                }
            },
            Stmt::For(s) => {
                let iter_ty = self.infer_expr_type(&s.iterable);
                // the element type of the iterable
                let elem_ty = match &iter_ty {
                    Type::Array { element, .. } => (**element).deep_clone(),
                    Type::Slice { element } => (**element).deep_clone(),
                    _ => Type::Error,
                };
                self.env.push_scope();
                self.env.bind_var(s.binding.as_str(), elem_ty, false);
                let outer = self.in_loop;
                self.in_loop = true;
                let ghost e0 = self.errors@;
                self.check_block(&s.body);
                self.in_loop = outer;
                self.env.pop_scope();
                proof {
                    lemma_reports_kept(old(self).errors@, e0, self.errors@, self.errors@);
                }
            },
            Stmt::While(s) => {
                proof {
                    if s.condition matches Expr::Literal(_) {
                        assert(quiet_expr(s.condition, bound_names(self.env)));
                    }
                }
                let cond_ty = self.infer_expr_type(&s.condition);
                self.check_condition(&cond_ty, String::from_str("while condition must be Bool"), s.condition.span());
                let ghost e0 = self.errors@;
                self.check_loop_body(&s.body);
                proof {
                    lemma_reports_kept(old(self).errors@, e0, self.errors@, self.errors@);
                }
            },
            Stmt::Loop(s) => {
                self.check_loop_body(&s.body);
            },
            Stmt::Return(s) => {
                if let Some(value) = &s.value {
                    let _value_ty = self.infer_expr_type(value);
                }
            },
            Stmt::Break(s) => {
                if !self.in_loop {
                    self.report(
                        Diagnostic::error(String::from_str("'break' used outside of a loop")).with_span(s.span),
                    );
                }
            },
            Stmt::Continue(s) => {
                if !self.in_loop {
                    self.report(
                        Diagnostic::error(String::from_str("'continue' used outside of a loop")).with_span(s.span),
                    );
                }
            },
            Stmt::Select(s) => {
                self.check_select_arms(&s.arms);
            },
            Stmt::Item(item) => {
                self.register_item(item);
                self.check_item(item);
            },
        }
    }

    /// Register and check each method of an impl block.
    fn check_methods(&mut self, methods: &Vec<OpDecl>)
        requires
            old(self).wf(),
        ensures
            final(self).in_loop == old(self).in_loop,
            (forall|i: int| 0 <= i < methods@.len() ==> quiet_op(#[trigger] methods@[i])) ==> final(self).errors@ == old(self).errors@,
            final(self).kept(old(self)),
            !old(self).in_loop && (exists|k: int|
                0 <= k < methods@.len() && op_body_stray(#[trigger] methods@[k])) ==> final(self).errors@.len() > old(self).errors@.len(),
        decreases methods, 1int,
    {
        let mut i: usize = 0;
        while i < methods.len()
            invariant
                !old(self).in_loop && (exists|k: int| 0 <= k < i && op_body_stray(#[trigger] methods@[k])) ==> self.errors@.len() > old(self).errors@.len(),
                i <= methods@.len(),
                (forall|k: int| 0 <= k < methods@.len() ==> quiet_op(#[trigger] methods@[k])) ==> self.errors@ == old(self).errors@,
                self.kept(old(self)),
                self.in_loop == old(self).in_loop,
            decreases methods@.len() - i,
        {
            self.register_op(&methods[i]);
            self.check_op(&methods[i]);
            i = i + 1;
        }
    }

    /// Check the `else if` branches of an `if` statement.
    fn check_else_ifs(&mut self, else_ifs: &Vec<(Expr, Block)>)
        requires
            old(self).wf(),
        ensures
            final(self).in_loop == old(self).in_loop,
            final(self).kept(old(self)),
            !old(self).in_loop && (exists|k: int| 0 <= k < else_ifs@.len() && has_stray_jump(#[trigger] else_ifs@[k].1))
                ==> final(self).errors@.len() > old(self).errors@.len(),
            (exists|k: int| #![trigger else_ifs@[k]] 0 <= k < else_ifs@.len() && block_discards(else_ifs@[k].1))
                ==> unused_reported(old(self).errors@, final(self).errors@),
        decreases else_ifs, 1int,
    {
        let mut i: usize = 0;
        while i < else_ifs.len()
            invariant
                !old(self).in_loop && (exists|k: int| 0 <= k < i && has_stray_jump(#[trigger] else_ifs@[k].1)) ==> self.errors@.len() > old(self).errors@.len(),
                (exists|k: int| #![trigger else_ifs@[k]] 0 <= k < i && block_discards(else_ifs@[k].1))
                    ==> unused_reported(old(self).errors@, self.errors@),
                i <= else_ifs@.len(),
                self.kept(old(self)),
                self.in_loop == old(self).in_loop,
            decreases else_ifs@.len() - i,
        {
            let ghost e_top = self.errors@;
            let cond_ty = self.infer_expr_type(&else_ifs[i].0);
            self.check_condition(&cond_ty, String::from_str("else-if condition must be Bool"), else_ifs[i].0.span());
            let ghost e0 = self.errors@;
            self.env.push_scope();
            self.check_block(&else_ifs[i].1);
            self.env.pop_scope();
            proof {
                lemma_reports_kept(old(self).errors@, e0, self.errors@, self.errors@);
                lemma_reports_kept(old(self).errors@, old(self).errors@, e_top, self.errors@);
            }
            i = i + 1;
        }
    }

    /// Check the arms of a `match` statement, each in a scope of its own
    /// that holds the pattern's bindings.
    fn check_match_arms(&mut self, arms: &Vec<MatchArm>)
        requires
            old(self).wf(),
        ensures
            final(self).in_loop == old(self).in_loop,
            final(self).kept(old(self)),
            !old(self).in_loop && (exists|k: int|
                0 <= k < arms@.len() && arm_body_stray(#[trigger] arms@[k]))
                ==> final(self).errors@.len() > old(self).errors@.len(),
            (exists|k: int| #![trigger arms@[k]] 0 <= k < arms@.len() && arm_discards(arms@[k]))
                ==> unused_reported(old(self).errors@, final(self).errors@),
        decreases arms, 1int,
    {
        let mut i: usize = 0;
        while i < arms.len()
            invariant
                !old(self).in_loop && (exists|k: int| 0 <= k < i && arm_body_stray(#[trigger] arms@[k])) ==> self.errors@.len() > old(self).errors@.len(),
                (exists|k: int| #![trigger arms@[k]] 0 <= k < i && arm_discards(arms@[k]))
                    ==> unused_reported(old(self).errors@, self.errors@),
                i <= arms@.len(),
                self.kept(old(self)),
                self.in_loop == old(self).in_loop,
            decreases arms@.len() - i,
        {
            let ghost e0 = self.errors@;
            self.env.push_scope();
            self.bind_pattern(&arms[i].pattern);
            let ghost e1 = self.errors@;
            match &arms[i].body {
                MatchArmBody::Block(block) => self.check_block(block),
                MatchArmBody::Expr(expr) => {
                    self.infer_expr_type(expr);
                },
            }
            self.env.pop_scope();
            proof {
                lemma_reports_kept(old(self).errors@, e1, self.errors@, self.errors@);
                lemma_reports_kept(old(self).errors@, old(self).errors@, e0, self.errors@);
            }
            i = i + 1;
        }
    }

    fn check_select_arms(&mut self, arms: &Vec<SelectArm>)
        requires
            old(self).wf(),
        ensures
            final(self).in_loop == old(self).in_loop,
            final(self).kept(old(self)),
            !old(self).in_loop && (exists|k: int| 0 <= k < arms@.len() && select_arm_stray(#[trigger] arms@[k])) ==> final(self).errors@.len() > old(self).errors@.len(),
        decreases arms, 1int,
    {
        let mut i: usize = 0;
        while i < arms.len()
            invariant
                !old(self).in_loop && (exists|k: int| 0 <= k < i && select_arm_stray(#[trigger] arms@[k])) ==> self.errors@.len() > old(self).errors@.len(),
                i <= arms@.len(),
                self.kept(old(self)),
                self.in_loop == old(self).in_loop,
            decreases arms@.len() - i,
        {
            self.check_select_arm(&arms[i]);
            i = i + 1;
        }
    }

    fn check_select_arm(&mut self, arm: &SelectArm)
        requires
            old(self).wf(),
        ensures
            final(self).in_loop == old(self).in_loop,
            final(self).kept(old(self)),
            !old(self).in_loop && select_arm_stray(*arm) ==> final(self).errors@.len() > old(self).errors@.len(),
        decreases arm, 1int,
    {
        match arm {
            SelectArm::Accept { body, params, .. } => {
                self.env.push_scope();
                self.bind_params(params);
                self.check_block(body);
                self.env.pop_scope();
            },
            SelectArm::Delay { duration, body, .. } => {
                self.infer_expr_type(duration);
                self.env.push_scope();
                self.check_block(body);
                self.env.pop_scope();
            },
            SelectArm::When { guard, accept, .. } => {
                let guard_ty = self.infer_expr_type(guard);
                self.check_condition(&guard_ty, String::from_str("select guard must be Bool"), guard.span());
                self.check_select_arm(accept);
            },
        }
    }
}

} // verus!
