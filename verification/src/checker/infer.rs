//! Type resolution and inference: type expressions to semantic types, the
//! types of expressions, pattern bindings, assignment compatibility and the
//! mutability of assignment targets.

use vstd::prelude::*;
use vstd::string::*;
use crate::ast::{
    Expr, TypeExpr, Pattern, PatternField, StructFieldInit, LiteralValue, LiteralExpr, BinaryOp, UnaryOp,
    CallExpr, binary_op_text,
};
use crate::types::{Type, TypeV, TypeId, resolve_primitive, FunctionInfo, FieldInfo, StructInfo};
use crate::types::types::{spec_resolve_primitive, spec_is_integer, spec_is_numeric, display, widens};
use crate::checker::env::{TypeEnv, VarBinding, struct_in, enum_in, function_in, law_bind_then_lookup};
use crate::diagnostics::{Diagnostic, DiagnosticKind};
use crate::text::{str_eq, usize_to_text, decimal};
use super::check::TypeChecker;

verus! {

broadcast use vstd::std_specs::vec::axiom_vec_index_decreases, vstd::string::group_string_axioms;

/// Whether a value of type `actual` may be stored where `expected` is
/// declared: equal types; the error type or a type still to be inferred on
/// either side; an integer type into one that holds all its values (see
/// `widens`: no implicit narrowing); or `Float32` where `Float64` is
/// expected.
pub open spec fn compatible(expected: TypeV, actual: TypeV) -> bool {
    ||| expected == actual
    ||| expected is Error
    ||| actual is Error
    ||| expected is Inferred
    ||| actual is Inferred
    ||| widens(expected, actual)
    ||| expected is Float64 && actual is Float32
}

/// The least and the greatest value of an integer type (`Int` is 64 bits
/// wide, `Byte` is an unsigned byte).
pub open spec fn int_range(t: TypeV) -> (int, int) {
    match t {
        TypeV::Int8 => (-128, 127),
        TypeV::Int16 => (-32768, 32767),
        TypeV::Int32 => (-2147483648, 2147483647),
        TypeV::Int | TypeV::Int64 => (-9223372036854775808, 9223372036854775807),
        TypeV::Uint8 | TypeV::Byte => (0, 255),
        TypeV::Uint16 => (0, 65535),
        TypeV::Uint32 => (0, 4294967295),
        TypeV::Uint64 => (0, 18446744073709551615),
        _ => (0, 0),
    }
}

/// The bits of significand and of exponent of a floating-point type.
pub open spec fn float_format(t: TypeV) -> (int, int) {
    match t {
        TypeV::Float32 => (24, 8),
        TypeV::Float64 => (53, 11),
        _ => (0, 0),
    }
}

/// A number type: an integer or a floating-point type.
pub open spec fn number_type(t: TypeV) -> bool {
    spec_is_integer(t) || t is Float32 || t is Float64
}

/// Every value of the number type `actual` is a value of the number type
/// `expected`: two integer types whose ranges nest, or two floating-point
/// types whose significand and exponent both fit.
pub open spec fn holds_all(expected: TypeV, actual: TypeV) -> bool {
    ||| spec_is_integer(expected) && spec_is_integer(actual) && int_range(expected).0 <= int_range(actual).0
        && int_range(actual).1 <= int_range(expected).1
    ||| (expected is Float32 || expected is Float64) && (actual is Float32 || actual is Float64) && float_format(
        actual,
    ).0 <= float_format(expected).0 && float_format(actual).1 <= float_format(expected).1
}

/// A number may stand where a number type is expected exactly when every
/// value of its type is a value of the expected type: widening is allowed
/// (`Int8` into `Int32`, `Uint32` into `Int64`, `Float32` into `Float64`),
/// narrowing, a change of sign range, and a change between integers and
/// floating point are not.
pub proof fn law_compatible_numbers(expected: TypeV, actual: TypeV)
    requires
        number_type(expected),
        number_type(actual),
    ensures
        compatible(expected, actual) <==> holds_all(expected, actual),
{
}

/// Whether a type expression mentions a type still to be inferred.
pub open spec fn has_inferred(te: TypeExpr) -> bool
    decreases te,
{
    match te {
        TypeExpr::Named { generics, .. } => exists|i: int|
            0 <= i < generics@.len() && has_inferred(#[trigger] generics@[i]),
        TypeExpr::Array { element, .. } => has_inferred(*element),
        TypeExpr::Slice { element, .. } => has_inferred(*element),
        TypeExpr::Tuple { elements, .. } => exists|i: int|
            0 <= i < elements@.len() && has_inferred(#[trigger] elements@[i]),
        TypeExpr::Reference { inner, .. } => has_inferred(*inner),
        TypeExpr::Result { ok_type, err_type, .. } => has_inferred(*ok_type) || has_inferred(
            *err_type,
        ),
        TypeExpr::Option { inner, .. } => has_inferred(*inner),
        TypeExpr::Inferred { .. } => true,
        TypeExpr::Path { generics, .. } => exists|i: int|
            0 <= i < generics@.len() && has_inferred(#[trigger] generics@[i]),
        _ => false,
    }
}

/// The size of an array type: the value of an integer literal, or 0.
pub open spec fn array_size(size: Expr) -> usize {
    match size {
        Expr::Literal(LiteralExpr { value: LiteralValue::Int(n), .. }) => n as usize,
        _ => 0,
    }
}

/// The semantic type that the type expression `te` stands for in the
/// environment `env`. Primitive names come first; then `Option<T>`,
/// `Result<T, E>`, `Slice<T>` and `Vec<T>` (an array of size 0); then
/// structs and enums in scope; any other name is a type parameter.
pub open spec fn resolved(env: TypeEnv, te: TypeExpr) -> TypeV
    decreases te,
{
    match te {
        TypeExpr::Named { name, generics, .. } => {
            let args = Seq::new(
                generics@.len(),
                |i: int|
                    if 0 <= i < generics@.len() {
                        resolved(env, generics@[i])
                    } else {
                        TypeV::Error
                    },
            );
            if spec_resolve_primitive(name@).is_some() {
                spec_resolve_primitive(name@).unwrap()
            } else if name@ == "Option"@ && generics@.len() == 1 {
                TypeV::Option { inner: Box::new(args[0]) }
            } else if name@ == "Result"@ && generics@.len() == 2 {
                TypeV::Result { ok: Box::new(args[0]), err: Box::new(args[1]) }
            } else if name@ == "Slice"@ && generics@.len() == 1 {
                TypeV::Slice { element: Box::new(args[0]) }
            } else if name@ == "Vec"@ && generics@.len() == 1 {
                TypeV::Array { element: Box::new(args[0]), size: 0 }
            } else {
                match env.spec_lookup_type(name@) {
                    Some(id) => if struct_in(env.struct_list(), id).is_some() {
                        TypeV::Struct { id, name: name@, generics: args }
                    } else if enum_in(env.enum_list(), id).is_some() {
                        TypeV::Enum { id, name: name@, generics: args }
                    } else {
                        TypeV::TypeParam { name: name@ }
                    },
                    None => TypeV::TypeParam { name: name@ },
                }
            }
        },
        TypeExpr::UnitType { base, unit, .. } => TypeV::UnitAnnotated {
            base: Box::new(
                match spec_resolve_primitive(base@) {
                    Some(t) => t,
                    None => TypeV::Float64,
                },
            ),
            unit_name: unit@,
        },
        TypeExpr::Array { element, size, .. } => TypeV::Array {
            element: Box::new(resolved(env, *element)),
            size: array_size(*size),
        },
        TypeExpr::Slice { element, .. } => TypeV::Slice { element: Box::new(resolved(env, *element)) },
        TypeExpr::Tuple { elements, .. } => TypeV::Tuple {
            elements: Seq::new(
                elements@.len(),
                |i: int|
                    if 0 <= i < elements@.len() {
                        resolved(env, elements@[i])
                    } else {
                        TypeV::Error
                    },
            ),
        },
        TypeExpr::Reference { inner, is_mut, .. } => TypeV::Ref {
            inner: Box::new(resolved(env, *inner)),
            mutable: is_mut,
        },
        TypeExpr::Result { ok_type, err_type, .. } => TypeV::Result {
            ok: Box::new(resolved(env, *ok_type)),
            err: Box::new(resolved(env, *err_type)),
        },
        TypeExpr::Option { inner, .. } => TypeV::Option { inner: Box::new(resolved(env, *inner)) },
        TypeExpr::SelfType { .. } => TypeV::TypeParam { name: "Self"@ },
        TypeExpr::Inferred { .. } => TypeV::Inferred { id: env.infer_counter() },
        TypeExpr::Never { .. } => TypeV::Never,
        TypeExpr::Path { segments, generics, .. } => {
            let name = if segments@.len() > 0 {
                segments@.last()@
            } else {
                Seq::empty()
            };
            let args = Seq::new(
                generics@.len(),
                |i: int|
                    if 0 <= i < generics@.len() {
                        resolved(env, generics@[i])
                    } else {
                        TypeV::Error
                    },
            );
            match env.spec_lookup_type(name) {
                Some(id) => if struct_in(env.struct_list(), id).is_some() {
                    TypeV::Struct { id, name, generics: args }
                } else if enum_in(env.enum_list(), id).is_some() {
                    TypeV::Enum { id, name, generics: args }
                } else {
                    TypeV::TypeParam { name }
                },
                None => TypeV::TypeParam { name },
            }
        },
    }
}

/// Whether assigning to `target` is allowed in the scopes `env`: a variable
/// must be bound mutable (an unbound name is taken to be global and may be
/// assigned); a field or an element is assignable when its base is; `self`
/// must be bound mutable; nothing else can be assigned to.
pub open spec fn assignable(env: TypeEnv, target: Expr) -> bool
    decreases target,
{
    match target {
        Expr::Identifier(id) => match env.spec_lookup_var(id.name@) {
            Some(b) => b.mutable,
            None => true,
        },
        Expr::FieldAccess(fa) => assignable(env, *fa.object),
        Expr::Index(idx) => assignable(env, *idx.object),
        Expr::SelfExpr(_) => match env.spec_lookup_var("self"@) {
            Some(b) => b.mutable,
            None => false,
        },
        _ => false,
    }
}

/// The type of a literal; `none` is an option of a fresh inference
/// variable numbered `next_id`.
pub open spec fn literal_type(v: LiteralValue, next_id: u64) -> TypeV {
    match v {
        LiteralValue::Int(_) => TypeV::Int,
        LiteralValue::Float(_) => TypeV::Float64,
        LiteralValue::String(_) => TypeV::Text,
        LiteralValue::Char(_) => TypeV::Char,
        LiteralValue::Bool(_) => TypeV::Bool,
        LiteralValue::None_ => TypeV::Option { inner: Box::new(TypeV::Inferred { id: next_id }) },
    }
}

/// The type of an operand that is a literal or a bound variable, as `env`
/// tells it; none for any other expression.
pub open spec fn leaf_type(env: TypeEnv, e: Expr) -> Option<TypeV> {
    match e {
        Expr::Literal(l) => if l.value is None_ {
            None
        } else {
            Some(literal_type(l.value, env.infer_counter()))
        },
        Expr::Identifier(id) => match env.spec_lookup_var(id.name@) {
            Some(b) => Some(b.ty@),
            None => None,
        },
        _ => None,
    }
}

/// The type of the first of `fields`, from position `i` on, named `name`.
pub open spec fn field_type_from(fields: Seq<FieldInfo>, name: Seq<char>, i: int) -> Option<TypeV>
    decreases fields.len() - i,
{
    if i < 0 || i >= fields.len() {
        None
    } else if fields[i].name@ == name {
        Some(fields[i].ty@)
    } else {
        field_type_from(fields, name, i + 1)
    }
}

/// The return type of the first of `methods`, from position `i` on, named
/// `name`.
pub open spec fn method_type_from(methods: Seq<FunctionInfo>, name: Seq<char>, i: int) -> Option<TypeV>
    decreases methods.len() - i,
{
    if i < 0 || i >= methods.len() {
        None
    } else if methods[i].name@ == name {
        Some(methods[i].return_type@)
    } else {
        method_type_from(methods, name, i + 1)
    }
}

/// The type that a member access on a value of type `t` gives in `env`:
/// on a struct, the type of its member as `member` finds it in the
/// struct's information; otherwise none, the access being left to
/// inference.
pub open spec fn struct_member(env: TypeEnv, t: TypeV, member: spec_fn(StructInfo) -> Option<TypeV>) -> Option<TypeV> {
    match t {
        TypeV::Struct { id, .. } => match struct_in(env.struct_list(), id) {
            Some(info) => member(info),
            None => None,
        },
        _ => None,
    }
}

/// The operand types of an arithmetic operation on `l` and `r` that are
/// not both numeric, neither being the error type, as far as `env` tells
/// the operands' types (see `leaf_type`).
pub open spec fn arithmetic_fault(env: TypeEnv, l: Expr, r: Expr) -> Option<(TypeV, TypeV)> {
    match (leaf_type(env, l), leaf_type(env, r)) {
        (Some(a), Some(b)) => if !(spec_is_numeric(a) && spec_is_numeric(b)) && !(a is Error) && !(b is Error) {
            Some((a, b))
        } else {
            None
        },
        _ => None,
    }
}

/// The error about an arithmetic operator `op` on operands of types `a`
/// and `b`.
pub open spec fn arithmetic_message(op: BinaryOp, a: TypeV, b: TypeV) -> Seq<char> {
    "arithmetic operator '"@ + binary_op_text(op) + "' requires numeric operands, found "@ + display(a) + " and "@
        + display(b)
}

/// Whether one of `names` is `n`.
pub open spec fn has_name(names: Seq<String>, n: Seq<char>) -> bool {
    exists|k: int| 0 <= k < names.len() && (#[trigger] names[k])@ == n
}

/// The first of the effects `needed`, from position `i` on, that `allowed`
/// does not hold.
pub open spec fn missing_from(allowed: Seq<String>, needed: Seq<String>, i: int) -> Option<Seq<char>>
    decreases needed.len() - i,
{
    if i < 0 || i >= needed.len() {
        None
    } else if has_name(allowed, needed[i]@) {
        missing_from(allowed, needed, i + 1)
    } else {
        Some(needed[i]@)
    }
}

/// The first effect that a call of `f` needs and the function being
/// checked, whose effects are `current`, does not declare; none outside a
/// function.
pub open spec fn missing_effect(current: Option<Vec<String>>, f: FunctionInfo) -> Option<Seq<char>> {
    match current {
        Some(allowed) => missing_from(allowed@, f.effects@, 0),
        None => None,
    }
}

/// The error about a call of `name` from a function without the effect
/// `e` that it needs.
pub open spec fn effect_message(name: Seq<char>, e: Seq<char>) -> Seq<char> {
    "call to '"@ + name + "' requires effect '"@ + e + "'"@
}

/// The first of `needed` that `allowed` does not hold.
fn first_missing(allowed: &Vec<String>, needed: &Vec<String>) -> (r: Option<String>)
    ensures
        match r {
            Some(e) => missing_from(allowed@, needed@, 0) == Some(e@),
            None => missing_from(allowed@, needed@, 0) is None,
        },
{
    let mut i: usize = 0;
    while i < needed.len()
        invariant
            i <= needed@.len(),
            missing_from(allowed@, needed@, 0) == missing_from(allowed@, needed@, i as int),
        decreases needed@.len() - i,
    {
        let mut found = false;
        let mut k: usize = 0;
        while k < allowed.len()
            invariant
                i < needed@.len(),
                k <= allowed@.len(),
                found == exists|j: int| 0 <= j < k && (#[trigger] allowed@[j])@ == needed@[i as int]@,
            decreases allowed@.len() - k,
        {
            if str_eq(allowed[k].as_str(), needed[i].as_str()) {
                found = true;
            }
            k = k + 1;
        }
        if !found {
            return Some(needed[i].clone());
        }
        i = i + 1;
    }
    None
}

/// The type of an arithmetic operation on operands of types `l` and `r`:
/// the left operand's type when both are numeric, else the error type.
pub open spec fn arithmetic_type(l: TypeV, r: TypeV) -> TypeV {
    if spec_is_numeric(l) && spec_is_numeric(r) {
        l
    } else {
        TypeV::Error
    }
}

/// Whether `op` compares its operands.
pub open spec fn is_comparison(op: BinaryOp) -> bool {
    matches!(op, BinaryOp::Eq | BinaryOp::NotEq | BinaryOp::Lt | BinaryOp::Gt | BinaryOp::LtEq | BinaryOp::GtEq)
}

/// An expression in which type inference finds nothing to fault, when the
/// variables in `names` are bound: a literal, one of those variables, a
/// comparison of such expressions, or a unary operator applied to one.
pub open spec fn quiet_expr(e: Expr, names: Set<Seq<char>>) -> bool
    decreases e,
{
    match e {
        Expr::Literal(_) => true,
        Expr::Identifier(id) => names.contains(id.name@),
        Expr::Binary(b) => is_comparison(b.op) && quiet_expr(*b.left, names) && quiet_expr(*b.right, names),
        Expr::Unary(u) => quiet_expr(*u.operand, names),
        _ => false,
    }
}

/// The names of the variables bound in `env`.
pub open spec fn bound_names(env: TypeEnv) -> Set<Seq<char>> {
    Set::new(|n: Seq<char>| env.spec_lookup_var(n) is Some)
}

/// Every variable that the pattern `p` introduces is bound in `env`.
pub open spec fn binds_all(env: TypeEnv, p: Pattern) -> bool
    decreases p,
{
    match p {
        Pattern::Binding { name, .. } => env.spec_lookup_var(name@) is Some,
        Pattern::Variant { fields, .. } => forall|i: int|
            0 <= i < fields@.len() ==> binds_all(env, (#[trigger] fields@[i]).pattern),
        Pattern::Tuple { elements, .. } => forall|i: int|
            0 <= i < elements@.len() ==> binds_all(env, #[trigger] elements@[i]),
        _ => true,
    }
}

/// Binding more variables keeps those of a pattern bound.
pub proof fn lemma_binds_all_grows(env: TypeEnv, more: TypeEnv, p: Pattern)
    requires
        binds_all(env, p),
        bound_names(env).subset_of(bound_names(more)),
    ensures
        binds_all(more, p),
    decreases p,
{
    match p {
        Pattern::Binding { name, .. } => {
            assert(bound_names(env).contains(name@));
        },
        Pattern::Variant { fields, .. } => {
            assert forall|i: int| 0 <= i < fields@.len() implies binds_all(more, (#[trigger] fields@[i]).pattern) by {
                lemma_binds_all_grows(env, more, fields@[i].pattern);
            }
        },
        Pattern::Tuple { elements, .. } => {
            assert forall|i: int| 0 <= i < elements@.len() implies binds_all(more, #[trigger] elements@[i]) by {
                lemma_binds_all_grows(env, more, elements@[i]);
            }
        },
        _ => {},
    }
}

/// An expression that names a variable that is not bound, nor a function,
/// in `env`.
pub open spec fn undefined_name(env: TypeEnv, e: Expr) -> bool {
    e matches Expr::Identifier(id) && env.spec_lookup_var(id.name@) is None && function_in(
        env.function_list(),
        id.name@,
    ) is None
}

/// The message about the undefined variable that `e` names.
pub open spec fn undefined_message(e: Expr) -> Seq<char> {
    match e {
        Expr::Identifier(id) => "undefined variable '"@ + id.name@ + "'"@,
        _ => Seq::empty(),
    }
}

/// More names bound keep an expression quiet.
pub proof fn lemma_quiet_expr_grows(e: Expr, names: Set<Seq<char>>, more: Set<Seq<char>>)
    requires
        quiet_expr(e, names),
        names.subset_of(more),
    ensures
        quiet_expr(e, more),
    decreases e,
{
    match e {
        Expr::Binary(b) => {
            lemma_quiet_expr_grows(*b.left, names, more);
            lemma_quiet_expr_grows(*b.right, names, more);
        },
        Expr::Unary(u) => {
            lemma_quiet_expr_grows(*u.operand, names, more);
        },
        _ => {},
    }
}

/// Whether a call builds a result: `ok(..)` or `err(..)` with a value.
pub open spec fn builds_result(c: CallExpr) -> bool {
    &&& *c.callee matches Expr::Identifier(id)
    &&& (id.name@ == "ok"@ || id.name@ == "err"@)
    &&& c.args@.len() > 0
}

/// The declared function that a call of a plain name refers to in `env`:
/// none for the built-in constructors `ok`, `some` and `err`, for a name
/// that no function has, and for any other callee.
pub open spec fn called_function(env: TypeEnv, c: CallExpr) -> Option<FunctionInfo> {
    match *c.callee {
        Expr::Identifier(id) => if id.name@ == "ok"@ || id.name@ == "some"@ || id.name@ == "err"@ {
            None
        } else {
            function_in(env.function_list(), id.name@)
        },
        _ => None,
    }
}

/// The built-in constructor (`ok`, `some` or `err`) that a call names, if
/// it names one.
pub open spec fn builtin_called(c: CallExpr) -> Option<Seq<char>> {
    match *c.callee {
        Expr::Identifier(id) => if id.name@ == "ok"@ || id.name@ == "some"@ || id.name@ == "err"@ {
            Some(id.name@)
        } else {
            None
        },
        _ => None,
    }
}

/// The message for a call of `name` with `got` arguments where the function
/// takes `expected`.
pub open spec fn arity_message(name: Seq<char>, expected: nat, got: nat) -> Seq<char> {
    "function '"@ + name + "' expects "@ + decimal(expected) + " argument(s), got "@ + decimal(got)
}

/// Whether an expression gives a result, as far as the names bound in
/// `env` tell: a variable bound to a `Result`, or a call of `ok` or `err`.
pub open spec fn gives_result(env: TypeEnv, e: Expr) -> bool {
    match e {
        Expr::Identifier(id) => env.spec_lookup_var(id.name@) matches Some(b) && b.ty@ is Result,
        Expr::Call(c) => builds_result(c),
        _ => false,
    }
}

/// Whether an operator is arithmetic.
pub open spec fn is_arithmetic(op: BinaryOp) -> bool {
    op == BinaryOp::Add || op == BinaryOp::Sub || op == BinaryOp::Mul || op == BinaryOp::Div || op
        == BinaryOp::Mod
}

/// Whether an operator works on the bits of integers.
pub open spec fn is_bitwise(op: BinaryOp) -> bool {
    op == BinaryOp::BitAnd || op == BinaryOp::BitOr || op == BinaryOp::BitXor || op == BinaryOp::ShiftLeft
        || op == BinaryOp::ShiftRight
}

pub open spec fn list_view(ts: Seq<Type>) -> Seq<TypeV> {
    Seq::new(ts.len(), |i: int| if 0 <= i < ts.len() { ts[i]@ } else { TypeV::Error })
}

proof fn lemma_list_views(x: Seq<Type>, y: Seq<Type>, same: bool)
    requires
        same == (x.len() == y.len() && forall|i: int| 0 <= i < x.len() ==> (#[trigger] x[i])@ == y[i]@),
    ensures
        same == (list_view(x) == list_view(y)),
{
    if same {
        assert(list_view(x) =~= list_view(y));
    }
    if !same && list_view(x) == list_view(y) {
        assert(list_view(x).len() == x.len());
        assert(list_view(y).len() == y.len());
        assert forall|i: int| 0 <= i < x.len() implies (#[trigger] x[i])@ == y[i]@ by {
            assert(list_view(x)[i] == list_view(y)[i]);
        }
        assert(false);
    }
}

/// Whether two types are equal.
pub fn type_eq(a: &Type, b: &Type) -> (r: bool)
    ensures
        r == (a@ == b@),
    decreases a,
{
    match (a, b) {
        (Type::Bool, Type::Bool) | (Type::Int, Type::Int) | (Type::Int8, Type::Int8)
        | (Type::Int16, Type::Int16) | (Type::Int32, Type::Int32) | (Type::Int64, Type::Int64)
        | (Type::Uint8, Type::Uint8) | (Type::Uint16, Type::Uint16) | (Type::Uint32, Type::Uint32)
        | (Type::Uint64, Type::Uint64) | (Type::Float32, Type::Float32)
        | (Type::Float64, Type::Float64) | (Type::Char, Type::Char) | (Type::Text, Type::Text)
        | (Type::Byte, Type::Byte) | (Type::Never, Type::Never) | (Type::Unit, Type::Unit)
        | (Type::Error, Type::Error) => true,
        (Type::Array { element: x, size: n }, Type::Array { element: y, size: m }) => *n == *m
            && type_eq(x, y),
        (Type::Slice { element: x }, Type::Slice { element: y }) => type_eq(x, y),
        (Type::Tuple { elements: x }, Type::Tuple { elements: y }) => {
            let r = types_eq(x, y);
            proof {
                lemma_list_views(x@, y@, r);
                if let TypeV::Tuple { elements: ga } = a@ {
                    assert(ga =~= list_view(x@));
                }
                if let TypeV::Tuple { elements: gb } = b@ {
                    assert(gb =~= list_view(y@));
                }
            }
            r
        },
        (Type::Option { inner: x }, Type::Option { inner: y }) => type_eq(x, y),
        (Type::Result { ok: x1, err: x2 }, Type::Result { ok: y1, err: y2 }) => type_eq(x1, y1)
            && type_eq(x2, y2),
        (Type::Struct { id: i, name: n, generics: x }, Type::Struct { id: j, name: m, generics: y }) => {
            let same_head = *i == *j && str_eq(n.as_str(), m.as_str());
            let same_args = types_eq(x, y);
            proof {
                lemma_list_views(x@, y@, same_args);
                if let TypeV::Struct { generics: ga, .. } = a@ {
                    assert(ga =~= list_view(x@));
                }
                if let TypeV::Struct { generics: gb, .. } = b@ {
                    assert(gb =~= list_view(y@));
                }
            }
            same_head && same_args
        },
        (Type::Enum { id: i, name: n, generics: x }, Type::Enum { id: j, name: m, generics: y }) => {
            let same_head = *i == *j && str_eq(n.as_str(), m.as_str());
            let same_args = types_eq(x, y);
            proof {
                lemma_list_views(x@, y@, same_args);
                if let TypeV::Enum { generics: ga, .. } = a@ {
                    assert(ga =~= list_view(x@));
                }
                if let TypeV::Enum { generics: gb, .. } = b@ {
                    assert(gb =~= list_view(y@));
                }
            }
            same_head && same_args
        },
        (Type::Ref { inner: x, mutable: p }, Type::Ref { inner: y, mutable: q }) => *p == *q
            && type_eq(x, y),
        (Type::Function { params: x, ret: u }, Type::Function { params: y, ret: v }) => {
            let same_args = types_eq(x, y);
            proof {
                lemma_list_views(x@, y@, same_args);
                if let TypeV::Function { params: ga, .. } = a@ {
                    assert(ga =~= list_view(x@));
                }
                if let TypeV::Function { params: gb, .. } = b@ {
                    assert(gb =~= list_view(y@));
                }
            }
            same_args && type_eq(u, v)
        },
        (Type::TypeParam { name: n }, Type::TypeParam { name: m }) => str_eq(n.as_str(), m.as_str()),
        (Type::UnitAnnotated { base: x, unit_name: n }, Type::UnitAnnotated {
            base: y,
            unit_name: m,
        }) => str_eq(n.as_str(), m.as_str()) && type_eq(x, y),
        (Type::Inferred { id: i }, Type::Inferred { id: j }) => *i == *j,
        _ => false,
    }
}

/// Whether two lists of types are equal, element by element.
pub fn types_eq(a: &Vec<Type>, b: &Vec<Type>) -> (r: bool)
    ensures
        r == (a@.len() == b@.len() && forall|i: int| 0 <= i < a@.len() ==> (#[trigger] a@[i])@ == b@[i]@),
    decreases a,
{
    if a.len() != b.len() {
        return false;
    }
    let mut i: usize = 0;
    while i < a.len()
        invariant
            a@.len() == b@.len(),
            i <= a@.len(),
            forall|j: int| 0 <= j < i ==> (#[trigger] a@[j])@ == b@[j]@,
        decreases a@.len() - i,
    {
        if !type_eq(&a[i], &b[i]) {
            return false;
        }
        i = i + 1;
    }
    true
}

impl TypeChecker {
    /// Whether a value of type `actual` may be stored where `expected` is declared.
    pub(crate) fn types_compatible(&self, expected: &Type, actual: &Type) -> (r: bool)
        ensures
            r == compatible(expected@, actual@),
    {
        if type_eq(expected, actual) {
            return true;
        }
        if expected.is_error() || actual.is_error() {
            return true;
        }
        if matches!(expected, Type::Inferred { .. }) || matches!(actual, Type::Inferred { .. }) {
            return true;
        }
        if expected.widens(actual) {
            return true;
        }
        matches!(expected, Type::Float64) && matches!(actual, Type::Float32)
    }

    /// Whether assigning to `target` is allowed.
    pub(crate) fn check_lvalue_mutability(&self, target: &Expr) -> (r: bool)
        ensures
            r == assignable(self.env, *target),
        decreases target,
    {
        match target {
            Expr::Identifier(id) => match self.env.lookup_var(id.name.as_str()) {
                Some(binding) => binding.mutable,
                None => true,
            },
            Expr::FieldAccess(fa) => self.check_lvalue_mutability(&fa.object),
            Expr::Index(idx) => self.check_lvalue_mutability(&idx.object),
            Expr::SelfExpr(_) => {
                proof {
                    reveal_strlit("self");
                }
                match self.env.lookup_var("self") {
                    Some(binding) => binding.mutable,
                    None => false,
                }
            },
            _ => false,
        }
    }
}

impl TypeChecker {
    /// Resolve a type expression to its semantic type.
    #[verifier::spinoff_prover]
    #[verifier::rlimit(50)]
    pub fn resolve_type_expr(&mut self, te: &TypeExpr) -> (r: Type)
        requires
            old(self).wf(),
        ensures
            final(self).wf(),
            final(self).errors == old(self).errors,
            final(self).in_loop == old(self).in_loop,
            final(self).env.frames() == old(self).env.frames(),
            final(self).env.same_tables(&old(self).env),
            final(self).env.type_counter() == old(self).env.type_counter(),
            !has_inferred(*te) ==> *final(self) == *old(self) && r@ == resolved(old(self).env, *te),
            *te is Inferred ==> r@ == resolved(old(self).env, *te) && final(self).env.infer_counter()
                == old(self).env.infer_counter().wrapping_add(1),
        decreases te,
    {
        match te {
            TypeExpr::Named { name, generics, .. } => {
                if let Some(prim) = resolve_primitive(name.as_str()) {
                    return prim;
                }
                proof {
                    reveal_strlit("Option");
                    reveal_strlit("Result");
                    reveal_strlit("Slice");
                    reveal_strlit("Vec");
                }
                let args = self.resolve_list(generics);
                if str_eq(name.as_str(), "Option") && generics.len() == 1 {
                    let inner = args[0].deep_clone();
                    return Type::Option { inner: Box::new(inner) };
                }
                if str_eq(name.as_str(), "Result") && generics.len() == 2 {
                    let ok = args[0].deep_clone();
                    let err = args[1].deep_clone();
                    return Type::Result { ok: Box::new(ok), err: Box::new(err) };
                }
                if str_eq(name.as_str(), "Slice") && generics.len() == 1 {
                    let elem = args[0].deep_clone();
                    return Type::Slice { element: Box::new(elem) };
                }
                if str_eq(name.as_str(), "Vec") && generics.len() == 1 {
                    let elem = args[0].deep_clone();
                    return Type::Array { element: Box::new(elem), size: 0 };
                }
                if let Some(id) = self.env.lookup_type(name.as_str()) {
                    if self.env.get_struct(id).is_some() {
                        let r = Type::Struct { id, name: name.clone(), generics: args };
                        proof {
                            if !has_inferred(*te) {
                                if let TypeV::Struct { generics: g, .. } = r@ {
                                    if let TypeV::Struct { generics: h, .. } = resolved(old(self).env, *te) {
                                        assert(g =~= h);
                                    }
                                }
                            }
                        }
                        return r;
                    }
                    if self.env.get_enum(id).is_some() {
                        let r = Type::Enum { id, name: name.clone(), generics: args };
                        proof {
                            if !has_inferred(*te) {
                                if let TypeV::Enum { generics: g, .. } = r@ {
                                    if let TypeV::Enum { generics: h, .. } = resolved(old(self).env, *te) {
                                        assert(g =~= h);
                                    }
                                }
                            }
                        }
                        return r;
                    }
                }
                Type::TypeParam { name: name.clone() }
            },
            TypeExpr::UnitType { base, unit, .. } => {
                let base_type = match resolve_primitive(base.as_str()) {
                    Some(prim) => prim,
                    None => Type::Float64,
                };
                Type::UnitAnnotated { base: Box::new(base_type), unit_name: unit.clone() }
            },
            TypeExpr::Array { element, size, .. } => {
                let elem = self.resolve_type_expr(element);
                let sz: usize = match &**size {
                    Expr::Literal(LiteralExpr { value: LiteralValue::Int(n), .. }) => *n as usize,
                    _ => 0,
                };
                Type::Array { element: Box::new(elem), size: sz }
            },
            TypeExpr::Slice { element, .. } => {
                let elem = self.resolve_type_expr(element);
                Type::Slice { element: Box::new(elem) }
            },
            TypeExpr::Tuple { elements, .. } => {
                let resolved_elems = self.resolve_list(elements);
                let r = Type::Tuple { elements: resolved_elems };
                proof {
                    if !has_inferred(*te) {
                        if let TypeV::Tuple { elements: g } = r@ {
                            if let TypeV::Tuple { elements: h } = resolved(old(self).env, *te) {
                                assert(g =~= h);
                            }
                        }
                    }
                }
                r
            },
            TypeExpr::Reference { inner, is_mut, .. } => {
                let inner_type = self.resolve_type_expr(inner);
                Type::Ref { inner: Box::new(inner_type), mutable: *is_mut }
            },
            TypeExpr::Result { ok_type, err_type, .. } => {
                let ok = self.resolve_type_expr(ok_type);
                let err = self.resolve_type_expr(err_type);
                Type::Result { ok: Box::new(ok), err: Box::new(err) }
            },
            TypeExpr::Option { inner, .. } => {
                let inner_type = self.resolve_type_expr(inner);
                Type::Option { inner: Box::new(inner_type) }
            },
            TypeExpr::SelfType { .. } => {
                proof {
                    reveal_strlit("Self");
                }
                Type::TypeParam { name: String::from_str("Self") }
            },
            TypeExpr::Inferred { .. } => Type::Inferred { id: self.env.fresh_infer_id() },
            TypeExpr::Never { .. } => Type::Never,
            TypeExpr::Path { segments, generics, .. } => {
                let name = if segments.len() > 0 {
                    segments[segments.len() - 1].clone()
                } else {
                    String::new()
                };
                if let Some(id) = self.env.lookup_type(name.as_str()) {
                    if self.env.get_struct(id).is_some() {
                        let args = self.resolve_list(generics);
                        let r = Type::Struct { id, name, generics: args };
                        proof {
                            if !has_inferred(*te) {
                                if let TypeV::Struct { generics: g, .. } = r@ {
                                    if let TypeV::Struct { generics: h, .. } = resolved(old(self).env, *te) {
                                        assert(g =~= h);
                                    }
                                }
                            }
                        }
                        return r;
                    }
                    if self.env.get_enum(id).is_some() {
                        let args = self.resolve_list(generics);
                        let r = Type::Enum { id, name, generics: args };
                        proof {
                            if !has_inferred(*te) {
                                if let TypeV::Enum { generics: g, .. } = r@ {
                                    if let TypeV::Enum { generics: h, .. } = resolved(old(self).env, *te) {
                                        assert(g =~= h);
                                    }
                                }
                            }
                        }
                        return r;
                    }
                }
                Type::TypeParam { name }
            },
        }
    }

    /// Resolve each of a list of type expressions.
    pub(crate) fn resolve_list(&mut self, tes: &Vec<TypeExpr>) -> (r: Vec<Type>)
        requires
            old(self).wf(),
        ensures
            final(self).wf(),
            final(self).errors == old(self).errors,
            final(self).in_loop == old(self).in_loop,
            final(self).env.frames() == old(self).env.frames(),
            final(self).env.same_tables(&old(self).env),
            final(self).env.type_counter() == old(self).env.type_counter(),
            r@.len() == tes@.len(),
            (forall|i: int| 0 <= i < tes@.len() ==> !has_inferred(#[trigger] tes@[i])) ==> {
                &&& *final(self) == *old(self)
                &&& forall|i: int| 0 <= i < tes@.len() ==> (#[trigger] r@[i])@ == resolved(old(self).env, tes@[i])
            },
        decreases tes,
    {
        let mut out: Vec<Type> = Vec::new();
        let mut i: usize = 0;
        while i < tes.len()
            invariant
                self.wf(),
                self.errors == old(self).errors,
                self.in_loop == old(self).in_loop,
                self.env.frames() == old(self).env.frames(),
                self.env.same_tables(&old(self).env),
                self.env.type_counter() == old(self).env.type_counter(),
                i <= tes@.len(),
                out@.len() == i,
                (forall|j: int| 0 <= j < tes@.len() ==> !has_inferred(#[trigger] tes@[j])) ==> {
                    &&& *self == *old(self)
                    &&& forall|j: int| 0 <= j < i ==> (#[trigger] out@[j])@ == resolved(old(self).env, tes@[j])
                },
            decreases tes@.len() - i,
        {
            let t = self.resolve_type_expr(&tes[i]);
            out.push(t);
            i = i + 1;
        }
        out
    }
}

impl TypeChecker {
    /// A fresh type to be inferred.
    fn fresh_inferred(&mut self) -> (r: Type)
        requires
            old(self).wf(),
        ensures
            final(self).kept(old(self)),
            final(self).errors == old(self).errors,
            final(self).in_loop == old(self).in_loop,
            final(self).env.frames() == old(self).env.frames(),
            final(self).env.same_tables(&old(self).env),
            r@ == (TypeV::Inferred { id: old(self).env.infer_counter() }),
    {
        Type::Inferred { id: self.env.fresh_infer_id() }
    }

    /// Infer the type of each expression of a list, in order.
    fn infer_all(&mut self, exprs: &Vec<Expr>, from: usize) -> (r: Vec<Type>)
        requires
            old(self).wf(),
        ensures
            final(self).kept(old(self)),
            r@.len() == (if from <= exprs@.len() {
                exprs@.len() - from
            } else {
                0
            }),
        decreases exprs, 0int,
    {
        let mut out: Vec<Type> = Vec::new();
        let mut i = from;
        while i < exprs.len()
            invariant
                self.kept(old(self)),
                from <= i,
                from <= exprs@.len() ==> i <= exprs@.len(),
                from > exprs@.len() ==> i == from,
                out@.len() == i - from,
            decreases exprs@.len() - i,
        {
            out.push(self.infer_expr_type(&exprs[i]));
            i = i + 1;
        }
        out
    }

    /// Infer the types of the values given to struct fields, in order.
    fn infer_field_values(&mut self, fields: &Vec<StructFieldInit>)
        requires
            old(self).wf(),
        ensures
            final(self).kept(old(self)),
            (forall|i: int| 0 <= i < fields@.len() ==> quiet_expr((#[trigger] fields@[i]).value, bound_names(old(self).env)))
                ==> final(self).errors@ == old(self).errors@,
            fields@.len() > 0 && undefined_name(old(self).env, fields@[0].value) ==> {
                &&& final(self).errors@.len() > old(self).errors@.len()
                &&& final(self).errors@[old(self).errors@.len() as int].message@ == undefined_message(fields@[0].value)
            },
        decreases fields, 0int,
    {
        let mut i: usize = 0;
        while i < fields.len()
            invariant
                (forall|k: int| 0 <= k < fields@.len() ==> quiet_expr((#[trigger] fields@[k]).value, bound_names(old(self).env)))
                    ==> self.errors@ == old(self).errors@ && self.env.frames() == old(self).env.frames(),
                i == 0 ==> *self == *old(self),
                i > 0 && fields@.len() > 0 && undefined_name(old(self).env, fields@[0].value) ==> {
                    &&& self.errors@.len() > old(self).errors@.len()
                    &&& self.errors@[old(self).errors@.len() as int].message@ == undefined_message(fields@[0].value)
                },
                self.kept(old(self)),
            decreases fields@.len() - i,
        {
            proof {
                if forall|k: int| 0 <= k < fields@.len() ==> quiet_expr((#[trigger] fields@[k]).value, bound_names(old(self).env)) {
                    assert(bound_names(self.env) =~= bound_names(old(self).env));
                    assert(quiet_expr(fields@[i as int].value, bound_names(old(self).env)));
                }
            }
            self.infer_expr_type(&fields[i].value);
            i = i + 1;
        }
    }

    /// Infer the types of call arguments from position `from` up to `to`.
    fn infer_args(&mut self, args: &Vec<crate::ast::CallArg>, to: usize)
        requires
            old(self).wf(),
        ensures
            final(self).kept(old(self)),
            (forall|i: int| 0 <= i < args@.len() ==> quiet_expr((#[trigger] args@[i]).value, bound_names(old(self).env)))
                ==> final(self).errors@ == old(self).errors@,
            to > 0 && args@.len() > 0 && undefined_name(old(self).env, args@[0].value) ==> {
                &&& final(self).errors@.len() > old(self).errors@.len()
                &&& final(self).errors@[old(self).errors@.len() as int].message@ == undefined_message(args@[0].value)
            },
        decreases args, 0int,
    {
        let mut i: usize = 0;
        while i < to && i < args.len()
            invariant
                (forall|k: int| 0 <= k < args@.len() ==> quiet_expr((#[trigger] args@[k]).value, bound_names(old(self).env)))
                    ==> self.errors@ == old(self).errors@ && self.env.frames() == old(self).env.frames(),
                i == 0 ==> *self == *old(self),
                i > 0 && args@.len() > 0 && undefined_name(old(self).env, args@[0].value) ==> {
                    &&& self.errors@.len() > old(self).errors@.len()
                    &&& self.errors@[old(self).errors@.len() as int].message@ == undefined_message(args@[0].value)
                },
                self.kept(old(self)),
            decreases args@.len() - i,
        {
            proof {
                if forall|k: int| 0 <= k < args@.len() ==> quiet_expr((#[trigger] args@[k]).value, bound_names(old(self).env)) {
                    assert(bound_names(self.env) =~= bound_names(old(self).env));
                    assert(quiet_expr(args@[i as int].value, bound_names(old(self).env)));
                }
            }
            self.infer_expr_type(&args[i].value);
            i = i + 1;
        }
    }

    /// Infer the type of a call of the declared function `name`, reporting
    /// a wrong number of arguments and an effect the caller lacks.
    fn infer_declared_call(&mut self, call: &CallExpr, name: &str) -> (r: Type)
        requires
            old(self).wf(),
            *call.callee matches Expr::Identifier(id) && id.name@ == name@,
            builtin_called(*call) is None,
        ensures
            final(self).kept(old(self)),
            called_function(old(self).env, *call) is None ==> r@ is Inferred,
            match called_function(old(self).env, *call) {
                Some(f) => (f.params@.len() == call.args@.len() && missing_effect(old(self).current_effects, f)
                    is Some) ==> {
                    &&& final(self).errors@.len() > old(self).errors@.len()
                    &&& final(self).errors@[old(self).errors@.len() as int].message@ == effect_message(
                        name@,
                        missing_effect(old(self).current_effects, f).unwrap(),
                    )
                    &&& final(self).errors@[old(self).errors@.len() as int].span == Some(call.span)
                },
                None => true,
            },
            called_function(old(self).env, *call) matches Some(f) ==> {
                &&& r@ == f.return_type@
                &&& f.params@.len() != call.args@.len() ==> {
                    &&& final(self).errors@.len() > old(self).errors@.len()
                    &&& final(self).errors@[old(self).errors@.len() as int].message@ == arity_message(
                        name@,
                        f.params@.len(),
                        call.args@.len(),
                    )
                    &&& final(self).errors@[old(self).errors@.len() as int].span == Some(call.span)
                }
            },
        decreases call, 0int,
    {
        let info = match self.env.get_function(name) {
                Some(f) => {
                    let missing = match &self.current_effects {
                        Some(allowed) => first_missing(allowed, &f.effects),
                        None => None,
                    };
                    Some((f.params.len(), f.return_type.deep_clone(), missing))
                },
                None => None,
            };
            match info {
                Some((expected, ret, missing)) => {
                    let got = call.args.len();
                    if let Some(e) = missing {
                        if expected == got {
                            let mut m = String::from_str("call to '");
                            m.append(name);
                            m.append("' requires effect '");
                            m.append(e.as_str());
                            m.append("'");
                            self.report(Diagnostic::error(m).with_span(call.span));
                        }
                    }
                    if expected != got {
                        let mut m = String::from_str("function '");
                        m.append(name);
                        m.append("' expects ");
                        m.append(usize_to_text(expected).as_str());
                        m.append(" argument(s), got ");
                        m.append(usize_to_text(got).as_str());
                        self.report(Diagnostic::error(m).with_span(call.span));
                    }
                    // the arguments that meet a parameter
                    self.infer_args(&call.args, expected);
                    ret
                },
                None => {
                    // a struct constructor, or an unknown function
                    self.infer_args(&call.args, call.args.len());
                    self.fresh_inferred()
                },
            }
    }

    /// Infer the type of an expression, reporting the type errors in it.
    #[verifier::spinoff_prover]
    #[verifier::rlimit(100)]
    pub fn infer_expr_type(&mut self, expr: &Expr) -> (r: Type)
        requires
            old(self).wf(),
        ensures
            final(self).kept(old(self)),
            quiet_expr(*expr, bound_names(old(self).env)) ==> final(self).errors@ == old(self).errors@
                && final(self).env.frames() == old(self).env.frames() && final(self).env.same_tables(&old(self).env),
            quiet_expr(*expr, Set::empty()) ==> !(r@ is Result),
            leaf_type(old(self).env, *expr) is Some ==> *final(self) == *old(self),
            match *expr {
                Expr::Literal(l) => r@ == literal_type(l.value, old(self).env.infer_counter()),
                Expr::Identifier(id) => match old(self).env.spec_lookup_var(id.name@) {
                    Some(b) => r@ == b.ty@,
                    None => function_in(old(self).env.function_list(), id.name@) is None ==> {
                        &&& r@ == TypeV::Error
                        &&& final(self).errors@.len() == old(self).errors@.len() + 1
                        &&& final(self).errors@.last().message@ == "undefined variable '"@ + id.name@ + "'"@
                        &&& final(self).errors@.last().span == Some(id.span)
                    },
                },
                Expr::Binary(b) => {
                    &&& (is_comparison(b.op) || b.op == BinaryOp::And || b.op == BinaryOp::Or) ==> r@
                        == TypeV::Bool
                    &&& is_arithmetic(b.op) ==> spec_is_numeric(r@) || r@ == TypeV::Error
                    &&& is_arithmetic(b.op) && leaf_type(old(self).env, *b.left) is Some && leaf_type(
                        old(self).env,
                        *b.right,
                    ) is Some ==> r@ == arithmetic_type(
                        leaf_type(old(self).env, *b.left).unwrap(),
                        leaf_type(old(self).env, *b.right).unwrap(),
                    )
                    &&& match arithmetic_fault(old(self).env, *b.left, *b.right) {
                        Some((x, y)) => is_arithmetic(b.op) ==> {
                            &&& final(self).errors@.len() == old(self).errors@.len() + 1
                            &&& final(self).errors@.last().message@ == arithmetic_message(b.op, x, y)
                            &&& final(self).errors@.last().span == Some(b.span)
                        },
                        None => true,
                    }
                    &&& is_bitwise(b.op) ==> spec_is_integer(r@) || r@ == TypeV::Error
                },
                Expr::Unary(u) => u.op == UnaryOp::Not ==> r@ == TypeV::Bool,
                Expr::Call(c) => {
                    &&& builds_result(c) ==> r@ is Result
                    &&& builtin_called(c) is Some && c.args@.len() == 0 ==> r@ == TypeV::Error
                    &&& builtin_called(c) == Some("ok"@) && c.args@.len() > 0 ==> (r@ matches TypeV::Result {
                        err,
                        ..
                    } && *err == TypeV::Error)
                    &&& builtin_called(c) == Some("some"@) && c.args@.len() > 0 ==> r@ is Option
                    &&& builtin_called(c) == Some("err"@) && c.args@.len() > 0 ==> (r@ matches TypeV::Result {
                        ok,
                        ..
                    } && *ok is Inferred)
                    &&& builtin_called(c) is None && called_function(old(self).env, c) is None ==> r@ is Inferred
                    &&& match called_function(old(self).env, c) {
                        Some(f) => (f.params@.len() == c.args@.len() && missing_effect(old(self).current_effects, f)
                            is Some) ==> {
                            &&& final(self).errors@.len() > old(self).errors@.len()
                            &&& final(self).errors@[old(self).errors@.len() as int].message@ == effect_message(
                                c.callee->Identifier_0.name@,
                                missing_effect(old(self).current_effects, f).unwrap(),
                            )
                            &&& final(self).errors@[old(self).errors@.len() as int].span == Some(c.span)
                        },
                        None => true,
                    }
                    &&& called_function(old(self).env, c) matches Some(f) ==> {
                        &&& r@ == f.return_type@
                        &&& f.params@.len() != c.args@.len() ==> {
                            &&& final(self).errors@.len() > old(self).errors@.len()
                            &&& final(self).errors@[old(self).errors@.len() as int].message@ == arity_message(
                                c.callee->Identifier_0.name@,
                                f.params@.len(),
                                c.args@.len(),
                            )
                            &&& final(self).errors@[old(self).errors@.len() as int].span == Some(c.span)
                        }
                    }
                },
                Expr::Concat(_) => r@ == TypeV::Text,
                Expr::Match(_) => r@ is Inferred,
                Expr::UnsafeBlock(_) => r@ is Inferred,
                Expr::ErrorConvert(_) => r@ is Inferred,
                Expr::StructLiteral(sl) => {
                    ||| (r@ matches TypeV::Struct { name, generics, .. } && name == sl.name@ && generics.len() == 0)
                    ||| {
                        &&& r@ == TypeV::Error
                        &&& final(self).errors@.len() > old(self).errors@.len()
                        &&& final(self).errors@.last().message@ == "unknown struct type '"@ + sl.name@ + "'"@
                        &&& final(self).errors@.last().span == Some(sl.span)
                    }
                },
                Expr::Block(_) => r@ == TypeV::Unit,
                Expr::Path(_) => r@ == (TypeV::Inferred { id: old(self).env.infer_counter() }),
                Expr::SelfExpr(_) => r@ == (TypeV::Inferred { id: old(self).env.infer_counter() }),
                Expr::ArrayLiteral(al) => r@ matches TypeV::Array { size, .. } && size == al.elements@.len(),
                Expr::Range(_) => r@ matches TypeV::Array { size, .. } && size == 0,
                Expr::TupleLiteral(tl) => r@ matches TypeV::Tuple { elements } && elements.len()
                    == tl.elements@.len(),
                Expr::Closure(cl) => r@ matches TypeV::Function { params, .. } && params.len()
                    == cl.params@.len(),
                Expr::Cast(c) => !has_inferred(c.target_type) ==> r@ == resolved(old(self).env, c.target_type),
                Expr::Index(ix) => match leaf_type(old(self).env, *ix.object) {
                    Some(TypeV::Array { element, .. }) => r@ == *element,
                    Some(TypeV::Slice { element }) => r@ == *element,
                    Some(_) => r@ is Inferred,
                    None => true,
                },
                Expr::FieldAccess(fa) => match leaf_type(old(self).env, *fa.object) {
                    Some(t) => match struct_member(old(self).env, t, |info: StructInfo| field_type_from(info.fields@, fa.field@, 0)) {
                        Some(ft) => r@ == ft,
                        None => r@ is Inferred,
                    },
                    None => true,
                },
                Expr::MethodCall(mc) => match leaf_type(old(self).env, *mc.receiver) {
                    Some(t) => match struct_member(old(self).env, t, |info: StructInfo| method_type_from(info.methods@, mc.method@, 0)) {
                        Some(mt) => r@ == mt,
                        None => r@ is Inferred,
                    },
                    None => true,
                },
                _ => true,
            },
        decreases expr, 0int,
    {
        match expr {
            Expr::Literal(lit) => match &lit.value {
                LiteralValue::Int(_) => Type::Int,
                LiteralValue::Float(_) => Type::Float64,
                LiteralValue::String(_) => Type::Text,
                LiteralValue::Char(_) => Type::Char,
                LiteralValue::Bool(_) => Type::Bool,
                LiteralValue::None_ => {
                    let inner = self.fresh_inferred();
                    Type::Option { inner: Box::new(inner) }
                },
            },
            Expr::Identifier(id) => {
                let bound = match self.env.lookup_var(id.name.as_str()) {
                    Some(binding) => Some(binding.ty.deep_clone()),
                    None => None,
                };
                match bound {
                    Some(t) => t,
                    None => {
                        if self.env.get_function(id.name.as_str()).is_some() {
                            // a function used as a value
                            let ret = self.fresh_inferred();
                            Type::Function { params: Vec::new(), ret: Box::new(ret) }
                        } else {
                            let mut m = String::from_str("undefined variable '");
                            m.append(id.name.as_str());
                            m.append("'");
                            self.report(Diagnostic::error(m).with_span(id.span));
                            Type::Error
                        }
                    },
                }
            },
            Expr::Binary(bin) => {
                let left_ty = self.infer_expr_type(&bin.left);
                proof {
                    if quiet_expr(*expr, bound_names(old(self).env)) {
                        assert(bound_names(self.env) =~= bound_names(old(self).env));
                    }
                    if leaf_type(old(self).env, *bin.left) is Some {
                        assert(quiet_expr(*bin.left, bound_names(old(self).env)));
                        if leaf_type(old(self).env, *bin.right) is Some {
                            assert(leaf_type(self.env, *bin.right) == leaf_type(old(self).env, *bin.right));
                            assert(quiet_expr(*bin.right, bound_names(self.env)));
                        }
                    }
                }
                let right_ty = self.infer_expr_type(&bin.right);
                match bin.op {
                    BinaryOp::Add | BinaryOp::Sub | BinaryOp::Mul | BinaryOp::Div | BinaryOp::Mod => {
                        if left_ty.is_numeric() && right_ty.is_numeric() {
                            left_ty
                        } else if left_ty.is_error() || right_ty.is_error() {
                            Type::Error
                        } else {
                            let mut m = String::from_str("arithmetic operator '");
                            m.append(bin.op.text());
                            m.append("' requires numeric operands, found ");
                            m.append(left_ty.display_name().as_str());
                            m.append(" and ");
                            m.append(right_ty.display_name().as_str());
                            self.report(Diagnostic::error(m).with_span(bin.span));
                            Type::Error
                        }
                    },
                    BinaryOp::Eq | BinaryOp::NotEq | BinaryOp::Lt | BinaryOp::Gt | BinaryOp::LtEq
                    | BinaryOp::GtEq => Type::Bool,
                    BinaryOp::And | BinaryOp::Or => {
                        if !matches!(left_ty, Type::Bool) && !left_ty.is_error() {
                            let mut m = String::from_str("logical '");
                            m.append(bin.op.text());
                            m.append("' requires Bool operands, found ");
                            m.append(left_ty.display_name().as_str());
                            self.report(Diagnostic::error(m).with_span(bin.left.span()));
                        }
                        Type::Bool
                    },
                    BinaryOp::BitAnd | BinaryOp::BitOr | BinaryOp::BitXor | BinaryOp::ShiftLeft
                    | BinaryOp::ShiftRight => {
                        if left_ty.is_integer() {
                            left_ty
                        } else {
                            Type::Error
                        }
                    },
                }
            },
            Expr::Unary(un) => {
                let operand_ty = self.infer_expr_type(&un.operand);
                match un.op {
                    UnaryOp::Neg => operand_ty,
                    UnaryOp::Not => Type::Bool,
                    UnaryOp::BitNot => operand_ty,
                }
            },
            Expr::Call(call) => {
                let t = match &*call.callee {
                Expr::Identifier(id) => {
                    let name = id.name.as_str();
                    proof {
                        reveal_strlit("ok");
                        reveal_strlit("err");
                        reveal_strlit("some");
                    }
                    assert("ok"@.len() == 2 && "err"@.len() == 3);
                    if str_eq(name, "ok") || str_eq(name, "some") {
                        // the built-in constructors
                        if call.args.len() > 0 {
                            let inner = self.infer_expr_type(&call.args[0].value);
                            if str_eq(name, "ok") {
                                let e = Type::Error;
                                assert(e@ == TypeV::Error);
                                Type::Result { ok: Box::new(inner), err: Box::new(e) }
                            } else {
                                Type::Option { inner: Box::new(inner) }
                            }
                        } else {
                            Type::Error
                        }
                    } else if str_eq(name, "err") {
                        if call.args.len() > 0 {
                            let inner = self.infer_expr_type(&call.args[0].value);
                            let ok = self.fresh_inferred();
                            Type::Result { ok: Box::new(ok), err: Box::new(inner) }
                        } else {
                            Type::Error
                        }
                    } else {
                        self.infer_declared_call(call, name)
                    }
                },
                _ => {
                    let _callee_ty = self.infer_expr_type(&call.callee);
                    self.infer_args(&call.args, call.args.len());
                    self.fresh_inferred()
                },
                };
                t
            },
            Expr::MethodCall(mc) => {
                let recv_ty = self.infer_expr_type(&mc.receiver);
                proof {
                    if leaf_type(old(self).env, *mc.receiver) is Some {
                        assert(quiet_expr(*mc.receiver, bound_names(old(self).env)));
                    }
                }
                if let Type::Struct { id, .. } = &recv_ty {
                    let mut found: Option<Type> = None;
                    if let Some(info) = self.env.get_struct(*id) {
                        let mut i: usize = 0;
                        while i < info.methods.len()
                            invariant_except_break
                                found is None,
                            invariant
                                i <= info.methods@.len(),
                                method_type_from(info.methods@, mc.method@, 0) == method_type_from(
                                    info.methods@,
                                    mc.method@,
                                    i as int,
                                ),
                            ensures
                                match found {
                                    Some(t) => method_type_from(info.methods@, mc.method@, 0) == Some(t@),
                                    None => method_type_from(info.methods@, mc.method@, 0) is None,
                                },
                            decreases info.methods@.len() - i,
                        {
                            if str_eq(info.methods[i].name.as_str(), mc.method.as_str()) {
                                found = Some(info.methods[i].return_type.deep_clone());
                                break;
                            }
                            i = i + 1;
                        }
                    }
                    if let Some(t) = found {
                        return t;
                    }
                }
                self.infer_args(&mc.args, mc.args.len());
                self.fresh_inferred()
            },
            Expr::FieldAccess(fa) => {
                let obj_ty = self.infer_expr_type(&fa.object);
                proof {
                    if leaf_type(old(self).env, *fa.object) is Some {
                        assert(quiet_expr(*fa.object, bound_names(old(self).env)));
                    }
                }
                if let Type::Struct { id, .. } = &obj_ty {
                    let mut found: Option<Type> = None;
                    if let Some(info) = self.env.get_struct(*id) {
                        let mut i: usize = 0;
                        while i < info.fields.len()
                            invariant_except_break
                                found is None,
                            invariant
                                i <= info.fields@.len(),
                                field_type_from(info.fields@, fa.field@, 0) == field_type_from(
                                    info.fields@,
                                    fa.field@,
                                    i as int,
                                ),
                            ensures
                                match found {
                                    Some(t) => field_type_from(info.fields@, fa.field@, 0) == Some(t@),
                                    None => field_type_from(info.fields@, fa.field@, 0) is None,
                                },
                            decreases info.fields@.len() - i,
                        {
                            if str_eq(info.fields[i].name.as_str(), fa.field.as_str()) {
                                found = Some(info.fields[i].ty.deep_clone());
                                break;
                            }
                            i = i + 1;
                        }
                    }
                    if let Some(t) = found {
                        return t;
                    }
                }
                self.fresh_inferred()
            },
            Expr::Index(idx) => {
                let obj_ty = self.infer_expr_type(&idx.object);
                let _index_ty = self.infer_expr_type(&idx.index);
                match obj_ty {
                    Type::Array { element, .. } => *element,
                    Type::Slice { element } => *element,
                    _ => self.fresh_inferred(),
                }
            },
            Expr::StructLiteral(sl) => {
                self.infer_field_values(&sl.fields);
                let found = match self.env.get_struct_by_name(sl.name.as_str()) {
                    Some(info) => Some(info.id),
                    None => None,
                };
                match found {
                    Some(id) => Type::Struct { id, name: sl.name.clone(), generics: Vec::new() },
                    None => {
                        let mut m = String::from_str("unknown struct type '");
                        m.append(sl.name.as_str());
                        m.append("'");
                        self.report(Diagnostic::error(m).with_span(sl.span));
                        Type::Error
                    },
                }
            },
            Expr::Closure(cl) => {
                let body_ty = self.infer_expr_type(&cl.body);
                let mut params: Vec<Type> = Vec::new();
                let mut i: usize = 0;
                while i < cl.params.len()
                    invariant
                        self.kept(old(self)),
                        i <= cl.params@.len(),
                        params@.len() == i,
                    decreases cl.params@.len() - i,
                {
                    let t = match &cl.params[i].type_expr {
                        Some(t) => self.resolve_type_expr(t),
                        None => self.fresh_inferred(),
                    };
                    params.push(t);
                    i = i + 1;
                }
                Type::Function { params, ret: Box::new(body_ty) }
            },
            Expr::Propagate(prop) => {
                let inner_ty = self.infer_expr_type(&prop.inner);
                match inner_ty {
                    Type::Result { ok, .. } => *ok,
                    Type::Option { inner } => *inner,
                    _ => {
                        self.report(
                            Diagnostic::error(
                                String::from_str("'?' operator can only be used on Result or Option types"),
                            ).with_span(prop.span),
                        );
                        Type::Error
                    },
                }
            },
            Expr::ErrorConvert(ec) => {
                let _inner_ty = self.infer_expr_type(&ec.inner);
                let _fallback_ty = self.infer_expr_type(&ec.fallback);
                self.fresh_inferred()
            },
            Expr::Range(r) => {
                let start_ty = self.infer_expr_type(&r.start);
                let _end_ty = self.infer_expr_type(&r.end);
                Type::Array { element: Box::new(start_ty), size: 0 }
            },
            Expr::ArrayLiteral(al) => {
                let elem_ty = if al.elements.len() > 0 {
                    self.infer_expr_type(&al.elements[0])
                } else {
                    self.fresh_inferred()
                };
                self.infer_all(&al.elements, 1);
                Type::Array { element: Box::new(elem_ty), size: al.elements.len() }
            },
            Expr::TupleLiteral(tl) => {
                let elements = self.infer_all(&tl.elements, 0);
                Type::Tuple { elements }
            },
            Expr::Path(_) => self.fresh_inferred(),
            Expr::SelfExpr(_) => self.fresh_inferred(),
            Expr::UnsafeBlock(ub) => {
                self.check_block(&ub.body);
                self.fresh_inferred()
            },
            Expr::If(if_expr) => {
                let _cond = self.infer_expr_type(&if_expr.condition);
                let then_ty = self.infer_expr_type(&if_expr.then_expr);
                if let Some(else_expr) = &if_expr.else_expr {
                    self.infer_expr_type(else_expr);
                }
                then_ty
            },
            Expr::Match(match_expr) => {
                let _subj = self.infer_expr_type(&match_expr.subject);
                self.fresh_inferred()
            },
            Expr::Block(block) => {
                self.env.push_scope();
                self.check_block(block);
                self.env.pop_scope();
                Type::Unit
            },
            Expr::Pipeline(p) => {
                let _left = self.infer_expr_type(&p.left);
                self.infer_expr_type(&p.right)
            },
            Expr::Concat(c) => {
                let left_ty = self.infer_expr_type(&c.left);
                let _right_ty = self.infer_expr_type(&c.right);
                if !matches!(left_ty, Type::Text) && !left_ty.is_error() {
                    self.report(
                        Diagnostic::error(String::from_str("'++' operator requires Text operands"))
                            .with_span(c.span),
                    );
                }
                Type::Text
            },
            Expr::Cast(c) => self.resolve_type_expr(&c.target_type),
        }
    }

    /// Bind the variables that a pattern introduces, each with a type still
    /// to be inferred.
    pub(crate) fn bind_pattern(&mut self, pattern: &Pattern)
        requires
            old(self).wf(),
        ensures
            final(self).kept(old(self)),
            final(self).errors == old(self).errors,
            bound_names(old(self).env).subset_of(bound_names(final(self).env)),
            binds_all(final(self).env, *pattern),
        decreases pattern,
    {
        match pattern {
            Pattern::Binding { name, .. } => {
                let t = self.fresh_inferred();
                let ghost frames = self.env.frames();
                let ghost b = VarBinding { ty: t, mutable: false, _initialized: true };
                self.env.bind_var(name.as_str(), t, false);
                proof {
                    assert(frames.len() >= 1);
                    assert(name@.push('_').len() != name@.len());
                    law_bind_then_lookup(frames, name@, b, name@.push('_'));
                    assert forall|n: Seq<char>| bound_names(old(self).env).contains(n) implies bound_names(
                        self.env,
                    ).contains(n) by {
                        if n != name@ {
                            law_bind_then_lookup(frames, name@, b, n);
                        }
                    }
                }
            },
            Pattern::Variant { fields, .. } => self.bind_field_patterns(fields),
            Pattern::Tuple { elements, .. } => self.bind_patterns(elements),
            Pattern::Wildcard { .. } | Pattern::Literal { .. } => {},
        }
    }

    fn bind_field_patterns(&mut self, fields: &Vec<PatternField>)
        requires
            old(self).wf(),
        ensures
            final(self).kept(old(self)),
            final(self).errors == old(self).errors,
            bound_names(old(self).env).subset_of(bound_names(final(self).env)),
            forall|i: int| 0 <= i < fields@.len() ==> binds_all(final(self).env, (#[trigger] fields@[i]).pattern),
        decreases fields,
    {
        let mut i: usize = 0;
        while i < fields.len()
            invariant
                i <= fields@.len(),
                bound_names(old(self).env).subset_of(bound_names(self.env)),
                forall|k: int| 0 <= k < i ==> binds_all(self.env, (#[trigger] fields@[k]).pattern),
                self.kept(old(self)),
                self.errors == old(self).errors,
            decreases fields@.len() - i,
        {
            let ghost before = self.env;
            self.bind_pattern(&fields[i].pattern);
            proof {
                assert forall|k: int| 0 <= k < i + 1 implies binds_all(self.env, (#[trigger] fields@[k]).pattern) by {
                    if k < i {
                        lemma_binds_all_grows(before, self.env, fields@[k].pattern);
                    }
                }
            }
            i = i + 1;
        }
    }

    fn bind_patterns(&mut self, patterns: &Vec<Pattern>)
        requires
            old(self).wf(),
        ensures
            final(self).kept(old(self)),
            final(self).errors == old(self).errors,
            bound_names(old(self).env).subset_of(bound_names(final(self).env)),
            forall|i: int| 0 <= i < patterns@.len() ==> binds_all(final(self).env, #[trigger] patterns@[i]),
        decreases patterns,
    {
        let mut i: usize = 0;
        while i < patterns.len()
            invariant
                i <= patterns@.len(),
                bound_names(old(self).env).subset_of(bound_names(self.env)),
                forall|k: int| 0 <= k < i ==> binds_all(self.env, #[trigger] patterns@[k]),
                self.kept(old(self)),
                self.errors == old(self).errors,
            decreases patterns@.len() - i,
        {
            let ghost before = self.env;
            self.bind_pattern(&patterns[i]);
            proof {
                assert forall|k: int| 0 <= k < i + 1 implies binds_all(self.env, #[trigger] patterns@[k]) by {
                    if k < i {
                        lemma_binds_all_grows(before, self.env, patterns@[k]);
                    }
                }
            }
            i = i + 1;
        }
    }
}

} // verus!
