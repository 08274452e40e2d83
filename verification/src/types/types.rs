//! Semantic type representations used by the type checker: fully resolved
//! types with no syntactic ambiguity, and the records the type environment
//! keeps about declarations.

use vstd::prelude::*;
use vstd::string::*;
use crate::text::{str_eq, decimal, u64_to_text, usize_to_text};

verus! {

broadcast use vstd::std_specs::vec::axiom_vec_index_decreases, vstd::string::group_string_axioms;

/// Unique identifier for user-defined types (structs, enums, abilities).
pub type TypeId = u64;

/// A resolved semantic type.
#[derive(Debug)]
pub enum Type {
    Bool,
    Int,
    Int8,
    Int16,
    Int32,
    Int64,
    Uint8,
    Uint16,
    Uint32,
    Uint64,
    Float32,
    Float64,
    Char,
    Text,
    Byte,
    Never,
    Unit,
    Array { element: Box<Type>, size: usize },
    Slice { element: Box<Type> },
    Tuple { elements: Vec<Type> },
    Option { inner: Box<Type> },
    Result { ok: Box<Type>, err: Box<Type> },
    Struct { id: TypeId, name: String, generics: Vec<Type> },
    Enum { id: TypeId, name: String, generics: Vec<Type> },
    Ref { inner: Box<Type>, mutable: bool },
    Function { params: Vec<Type>, ret: Box<Type> },
    TypeParam { name: String },
    UnitAnnotated { base: Box<Type>, unit_name: String },
    /// Error placeholder for recovery after type errors.
    Error,
    /// Inferred (not yet determined).
    Inferred { id: u64 },
}

/// The mathematical value of a `Type`: names are character sequences.
pub enum TypeV {
    Bool,
    Int,
    Int8,
    Int16,
    Int32,
    Int64,
    Uint8,
    Uint16,
    Uint32,
    Uint64,
    Float32,
    Float64,
    Char,
    Text,
    Byte,
    Never,
    Unit,
    Array { element: Box<TypeV>, size: usize },
    Slice { element: Box<TypeV> },
    Tuple { elements: Seq<TypeV> },
    Option { inner: Box<TypeV> },
    Result { ok: Box<TypeV>, err: Box<TypeV> },
    Struct { id: TypeId, name: Seq<char>, generics: Seq<TypeV> },
    Enum { id: TypeId, name: Seq<char>, generics: Seq<TypeV> },
    Ref { inner: Box<TypeV>, mutable: bool },
    Function { params: Seq<TypeV>, ret: Box<TypeV> },
    TypeParam { name: Seq<char> },
    UnitAnnotated { base: Box<TypeV>, unit_name: Seq<char> },
    Error,
    Inferred { id: u64 },
}

pub open spec fn type_view(t: Type) -> TypeV
    decreases t,
{
    match t {
        Type::Bool => TypeV::Bool,
        Type::Int => TypeV::Int,
        Type::Int8 => TypeV::Int8,
        Type::Int16 => TypeV::Int16,
        Type::Int32 => TypeV::Int32,
        Type::Int64 => TypeV::Int64,
        Type::Uint8 => TypeV::Uint8,
        Type::Uint16 => TypeV::Uint16,
        Type::Uint32 => TypeV::Uint32,
        Type::Uint64 => TypeV::Uint64,
        Type::Float32 => TypeV::Float32,
        Type::Float64 => TypeV::Float64,
        Type::Char => TypeV::Char,
        Type::Text => TypeV::Text,
        Type::Byte => TypeV::Byte,
        Type::Never => TypeV::Never,
        Type::Unit => TypeV::Unit,
        Type::Array { element, size } => TypeV::Array { element: Box::new(type_view(*element)), size },
        Type::Slice { element } => TypeV::Slice { element: Box::new(type_view(*element)) },
        Type::Tuple { elements } => TypeV::Tuple {
            elements: Seq::new(
                elements@.len(),
                |i: int|
                    if 0 <= i < elements@.len() {
                        type_view(elements@[i])
                    } else {
                        TypeV::Error
                    },
            ),
        },
        Type::Option { inner } => TypeV::Option { inner: Box::new(type_view(*inner)) },
        Type::Result { ok, err } => TypeV::Result {
            ok: Box::new(type_view(*ok)),
            err: Box::new(type_view(*err)),
        },
        Type::Struct { id, name, generics } => TypeV::Struct {
            id,
            name: name@,
            generics: Seq::new(
                generics@.len(),
                |i: int|
                    if 0 <= i < generics@.len() {
                        type_view(generics@[i])
                    } else {
                        TypeV::Error
                    },
            ),
        },
        Type::Enum { id, name, generics } => TypeV::Enum {
            id,
            name: name@,
            generics: Seq::new(
                generics@.len(),
                |i: int|
                    if 0 <= i < generics@.len() {
                        type_view(generics@[i])
                    } else {
                        TypeV::Error
                    },
            ),
        },
        Type::Ref { inner, mutable } => TypeV::Ref { inner: Box::new(type_view(*inner)), mutable },
        Type::Function { params, ret } => TypeV::Function {
            params: Seq::new(
                params@.len(),
                |i: int|
                    if 0 <= i < params@.len() {
                        type_view(params@[i])
                    } else {
                        TypeV::Error
                    },
            ),
            ret: Box::new(type_view(*ret)),
        },
        Type::TypeParam { name } => TypeV::TypeParam { name: name@ },
        Type::UnitAnnotated { base, unit_name } => TypeV::UnitAnnotated {
            base: Box::new(type_view(*base)),
            unit_name: unit_name@,
        },
        Type::Error => TypeV::Error,
        Type::Inferred { id } => TypeV::Inferred { id },
    }
}

impl View for Type {
    type V = TypeV;

    open spec fn view(&self) -> TypeV {
        type_view(*self)
    }
}

/// The views of a sequence of types.
pub open spec fn types_view(ts: Seq<Type>) -> Seq<TypeV> {
    Seq::new(ts.len(), |i: int| ts[i]@)
}

/// Numeric types suitable for arithmetic.
pub open spec fn spec_is_numeric(t: TypeV) -> bool {
    matches!(t, TypeV::Int | TypeV::Int8 | TypeV::Int16 | TypeV::Int32 | TypeV::Int64
        | TypeV::Uint8 | TypeV::Uint16 | TypeV::Uint32 | TypeV::Uint64 | TypeV::Byte
        | TypeV::Float32 | TypeV::Float64 | TypeV::UnitAnnotated { .. })
}

/// The width in bits of an integer type (`Int` is 64 bits wide, `Byte` is
/// `Uint8`); 0 for any other type.
pub open spec fn int_width(t: TypeV) -> int {
    match t {
        TypeV::Int8 | TypeV::Uint8 | TypeV::Byte => 8,
        TypeV::Int16 | TypeV::Uint16 => 16,
        TypeV::Int32 | TypeV::Uint32 => 32,
        TypeV::Int | TypeV::Int64 | TypeV::Uint64 => 64,
        _ => 0,
    }
}

/// Signed integer types.
pub open spec fn spec_is_signed(t: TypeV) -> bool {
    matches!(t, TypeV::Int | TypeV::Int8 | TypeV::Int16 | TypeV::Int32 | TypeV::Int64)
}

/// Whether every value of the integer type `actual` is a value of the
/// integer type `expected`: the same signedness and no fewer bits, or an
/// unsigned type into a strictly wider signed one.
pub open spec fn widens(expected: TypeV, actual: TypeV) -> bool {
    &&& spec_is_integer(expected)
    &&& spec_is_integer(actual)
    &&& {
        ||| spec_is_signed(expected) == spec_is_signed(actual) && int_width(actual) <= int_width(expected)
        ||| spec_is_signed(expected) && !spec_is_signed(actual) && int_width(actual) < int_width(expected)
    }
}

/// `Result` is not the name of a primitive type.
pub proof fn lemma_result_not_primitive()
    ensures
        spec_resolve_primitive("Result"@) is None,
{
    reveal_strlit("Result");
    reveal_strlit("Bool");
    reveal_strlit("Int");
    reveal_strlit("Int8");
    reveal_strlit("Int16");
    reveal_strlit("Int32");
    reveal_strlit("Int64");
    reveal_strlit("Uint8");
    reveal_strlit("Uint16");
    reveal_strlit("Uint32");
    reveal_strlit("Uint64");
    reveal_strlit("Float32");
    reveal_strlit("Float64");
    reveal_strlit("Char");
    reveal_strlit("Text");
    reveal_strlit("Byte");
    reveal_strlit("Never");
    assert("Result"@[0] != "Uint16"@[0]);
    assert("Result"@[0] != "Uint32"@[0]);
    assert("Result"@[0] != "Uint64"@[0]);
}

/// Integer types.
pub open spec fn spec_is_integer(t: TypeV) -> bool {
    matches!(t, TypeV::Int | TypeV::Int8 | TypeV::Int16 | TypeV::Int32 | TypeV::Int64
        | TypeV::Uint8 | TypeV::Uint16 | TypeV::Uint32 | TypeV::Uint64 | TypeV::Byte)
}

/// `parts` joined with `sep` between consecutive parts.
pub open spec fn join(parts: Seq<Seq<char>>, sep: Seq<char>) -> Seq<char>
    decreases parts.len(),
{
    if parts.len() == 0 {
        Seq::empty()
    } else if parts.len() == 1 {
        parts[0]
    } else {
        join(parts.drop_last(), sep) + sep + parts.last()
    }
}

/// The C type names of a sequence of types.
pub open spec fn c_parts(ts: Seq<TypeV>) -> Seq<Seq<char>>
    decreases ts,
{
    if ts.len() == 0 {
        Seq::empty()
    } else {
        c_parts(ts.drop_last()).push(c_name(ts.last()))
    }
}

/// The display names of a sequence of types.
pub open spec fn display_parts(ts: Seq<TypeV>) -> Seq<Seq<char>>
    decreases ts,
{
    if ts.len() == 0 {
        Seq::empty()
    } else {
        display_parts(ts.drop_last()).push(display(ts.last()))
    }
}

/// The C type a semantic type is generated as.
pub open spec fn c_name(t: TypeV) -> Seq<char>
    decreases t,
{
    match t {
        TypeV::Bool => "bool"@,
        TypeV::Int => "int64_t"@,
        TypeV::Int8 => "int8_t"@,
        TypeV::Int16 => "int16_t"@,
        TypeV::Int32 => "int32_t"@,
        TypeV::Int64 => "int64_t"@,
        TypeV::Uint8 => "uint8_t"@,
        TypeV::Uint16 => "uint16_t"@,
        TypeV::Uint32 => "uint32_t"@,
        TypeV::Uint64 => "uint64_t"@,
        TypeV::Float32 => "float"@,
        TypeV::Float64 => "double"@,
        TypeV::Char => "uint32_t"@,
        TypeV::Text => "GxcText"@,
        TypeV::Byte => "uint8_t"@,
        TypeV::Never => "void"@,
        TypeV::Unit => "void"@,
        TypeV::Array { element, .. } => "GxcArray_"@ + c_name(*element),
        TypeV::Slice { element } => "GxcSlice_"@ + c_name(*element),
        TypeV::Struct { name, .. } => "Gxc_"@ + name,
        TypeV::Enum { name, .. } => "Gxc_"@ + name,
        TypeV::Option { inner } => "GxcOption_"@ + c_name(*inner),
        TypeV::Result { ok, err } => "GxcResult_"@ + c_name(*ok) + "_"@ + c_name(*err),
        TypeV::Ref { inner, .. } => c_name(*inner) + "*"@,
        TypeV::Function { .. } => "GxcClosure"@,
        TypeV::Tuple { elements } => "GxcTuple_"@ + join(c_parts(elements), "_"@),
        TypeV::TypeParam { name } => "GxcTypeParam_"@ + name,
        TypeV::UnitAnnotated { base, .. } => c_name(*base),
        TypeV::Error => "void /* error */"@,
        TypeV::Inferred { id } => "GxcInferred_"@ + decimal(id as nat),
    }
}

/// The names of a sequence of types joined with `sep`.
pub open spec fn display_list(ts: Seq<TypeV>, sep: Seq<char>) -> Seq<char> {
    join(display_parts(ts), sep)
}

/// Human-readable name of a semantic type, as diagnostics show it.
pub open spec fn display(t: TypeV) -> Seq<char>
    decreases t,
{
    match t {
        TypeV::Bool => "Bool"@,
        TypeV::Int => "Int"@,
        TypeV::Int8 => "Int8"@,
        TypeV::Int16 => "Int16"@,
        TypeV::Int32 => "Int32"@,
        TypeV::Int64 => "Int64"@,
        TypeV::Uint8 => "Uint8"@,
        TypeV::Uint16 => "Uint16"@,
        TypeV::Uint32 => "Uint32"@,
        TypeV::Uint64 => "Uint64"@,
        TypeV::Float32 => "Float32"@,
        TypeV::Float64 => "Float64"@,
        TypeV::Char => "Char"@,
        TypeV::Text => "Text"@,
        TypeV::Byte => "Byte"@,
        TypeV::Never => "Never"@,
        TypeV::Unit => "()"@,
        TypeV::Array { element, size } => "["@ + display(*element) + "; "@ + decimal(size as nat) + "]"@,
        TypeV::Slice { element } => "Slice<"@ + display(*element) + ">"@,
        TypeV::Tuple { elements } => "("@ + join(display_parts(elements), ", "@) + ")"@,
        TypeV::Option { inner } => "Option<"@ + display(*inner) + ">"@,
        TypeV::Result { ok, err } => "Result<"@ + display(*ok) + ", "@ + display(*err) + ">"@,
        TypeV::Struct { name, generics, .. } => if generics.len() == 0 {
            name
        } else {
            name + "<"@ + join(display_parts(generics), ", "@) + ">"@
        },
        TypeV::Enum { name, generics, .. } => if generics.len() == 0 {
            name
        } else {
            name + "<"@ + join(display_parts(generics), ", "@) + ">"@
        },
        TypeV::Ref { inner, mutable } => if mutable {
            "mut ref "@ + display(*inner)
        } else {
            "ref "@ + display(*inner)
        },
        TypeV::Function { params, ret } => "op("@ + join(display_parts(params), ", "@) + ") -> "@ + display(*ret),
        TypeV::TypeParam { name } => name,
        TypeV::UnitAnnotated { base, unit_name } => display(*base) + "<"@ + unit_name + ">"@,
        TypeV::Error => "<error>"@,
        TypeV::Inferred { .. } => "<inferred>"@,
    }
}

/// The primitive type a type name stands for, if any.
pub open spec fn spec_resolve_primitive(name: Seq<char>) -> Option<TypeV> {
    if name == "Bool"@ {
        Some(TypeV::Bool)
    } else if name == "Int"@ {
        Some(TypeV::Int)
    } else if name == "Int8"@ {
        Some(TypeV::Int8)
    } else if name == "Int16"@ {
        Some(TypeV::Int16)
    } else if name == "Int32"@ {
        Some(TypeV::Int32)
    } else if name == "Int64"@ {
        Some(TypeV::Int64)
    } else if name == "Uint8"@ {
        Some(TypeV::Uint8)
    } else if name == "Uint16"@ {
        Some(TypeV::Uint16)
    } else if name == "Uint32"@ {
        Some(TypeV::Uint32)
    } else if name == "Uint64"@ {
        Some(TypeV::Uint64)
    } else if name == "Float32"@ {
        Some(TypeV::Float32)
    } else if name == "Float64"@ {
        Some(TypeV::Float64)
    } else if name == "Char"@ {
        Some(TypeV::Char)
    } else if name == "Text"@ {
        Some(TypeV::Text)
    } else if name == "Byte"@ {
        Some(TypeV::Byte)
    } else if name == "Never"@ {
        Some(TypeV::Never)
    } else {
        None
    }
}

/// A primitive type is shown in diagnostics by the name it is written
/// with: the name that resolves to it.
pub proof fn law_primitive_names_round_trip(name: Seq<char>)
    requires
        spec_resolve_primitive(name) is Some,
    ensures
        display(spec_resolve_primitive(name).unwrap()) == name,
{
    reveal_strlit("Bool");
    reveal_strlit("Int");
    reveal_strlit("Int8");
    reveal_strlit("Int16");
    reveal_strlit("Int32");
    reveal_strlit("Int64");
    reveal_strlit("Uint8");
    reveal_strlit("Uint16");
    reveal_strlit("Uint32");
    reveal_strlit("Uint64");
    reveal_strlit("Float32");
    reveal_strlit("Float64");
    reveal_strlit("Char");
    reveal_strlit("Text");
    reveal_strlit("Byte");
    reveal_strlit("Never");
}

/// An integer type is generated as the C fixed-width integer type of the
/// same width and signedness, `intN_t` or `uintN_t` with `N` its width in
/// bits.
#[verifier::rlimit(50)]
pub proof fn law_c_name_of_integers(t: TypeV)
    requires
        spec_is_integer(t),
    ensures
        c_name(t) == (if spec_is_signed(t) {
            ""@
        } else {
            "u"@
        }) + "int"@ + decimal(int_width(t) as nat) + "_t"@,
{
    reveal_strlit("int64_t");
    reveal_strlit("int8_t");
    reveal_strlit("int16_t");
    reveal_strlit("int32_t");
    reveal_strlit("uint8_t");
    reveal_strlit("uint16_t");
    reveal_strlit("uint32_t");
    reveal_strlit("uint64_t");
    reveal_strlit("");
    reveal_strlit("u");
    reveal_strlit("int");
    reveal_strlit("_t");
    reveal_with_fuel(decimal, 3);
    let expect = (if spec_is_signed(t) {
        ""@
    } else {
        "u"@
    }) + "int"@ + decimal(int_width(t) as nat) + "_t"@;
    match t {
        TypeV::Int => {
            assert(decimal(64) =~= seq!['6', '4']);
            assert(expect =~= "int64_t"@);
        },
        TypeV::Int64 => {
            assert(decimal(64) =~= seq!['6', '4']);
            assert(expect =~= "int64_t"@);
        },
        TypeV::Int8 => {
            assert(decimal(8) =~= seq!['8']);
            assert(expect =~= "int8_t"@);
        },
        TypeV::Int16 => {
            assert(decimal(16) =~= seq!['1', '6']);
            assert(expect =~= "int16_t"@);
        },
        TypeV::Int32 => {
            assert(decimal(32) =~= seq!['3', '2']);
            assert(expect =~= "int32_t"@);
        },
        TypeV::Uint8 => {
            assert(decimal(8) =~= seq!['8']);
            assert(expect =~= "uint8_t"@);
        },
        TypeV::Byte => {
            assert(decimal(8) =~= seq!['8']);
            assert(expect =~= "uint8_t"@);
        },
        TypeV::Uint16 => {
            assert(decimal(16) =~= seq!['1', '6']);
            assert(expect =~= "uint16_t"@);
        },
        TypeV::Uint32 => {
            assert(decimal(32) =~= seq!['3', '2']);
            assert(expect =~= "uint32_t"@);
        },
        TypeV::Uint64 => {
            assert(decimal(64) =~= seq!['6', '4']);
            assert(expect =~= "uint64_t"@);
        },
        _ => {},
    }
}

/// Resolve a type name to a primitive type, if one matches.
pub fn resolve_primitive(name: &str) -> (t: Option<Type>)
    ensures
        match t {
            Some(t) => spec_resolve_primitive(name@) == Some(t@),
            None => spec_resolve_primitive(name@).is_none(),
        },
{
    if str_eq(name, "Bool") {
        Some(Type::Bool)
    } else if str_eq(name, "Int") {
        Some(Type::Int)
    } else if str_eq(name, "Int8") {
        Some(Type::Int8)
    } else if str_eq(name, "Int16") {
        Some(Type::Int16)
    } else if str_eq(name, "Int32") {
        Some(Type::Int32)
    } else if str_eq(name, "Int64") {
        Some(Type::Int64)
    } else if str_eq(name, "Uint8") {
        Some(Type::Uint8)
    } else if str_eq(name, "Uint16") {
        Some(Type::Uint16)
    } else if str_eq(name, "Uint32") {
        Some(Type::Uint32)
    } else if str_eq(name, "Uint64") {
        Some(Type::Uint64)
    } else if str_eq(name, "Float32") {
        Some(Type::Float32)
    } else if str_eq(name, "Float64") {
        Some(Type::Float64)
    } else if str_eq(name, "Char") {
        Some(Type::Char)
    } else if str_eq(name, "Text") {
        Some(Type::Text)
    } else if str_eq(name, "Byte") {
        Some(Type::Byte)
    } else if str_eq(name, "Never") {
        Some(Type::Never)
    } else {
        None
    }
}

proof fn lemma_join_push(parts: Seq<Seq<char>>, sep: Seq<char>, p: Seq<char>)
    ensures
        join(parts.push(p), sep) == if parts.len() == 0 {
            p
        } else {
            join(parts, sep) + sep + p
        },
{
    assert(parts.push(p).drop_last() =~= parts);
}

impl Type {
    /// A copy of this type with the same value.
    #[verifier::loop_isolation(false)]
    pub fn deep_clone(&self) -> (r: Type)
        ensures
            r@ == self@,
        decreases self,
    {
        match self {
            Type::Bool => Type::Bool,
            Type::Int => Type::Int,
            Type::Int8 => Type::Int8,
            Type::Int16 => Type::Int16,
            Type::Int32 => Type::Int32,
            Type::Int64 => Type::Int64,
            Type::Uint8 => Type::Uint8,
            Type::Uint16 => Type::Uint16,
            Type::Uint32 => Type::Uint32,
            Type::Uint64 => Type::Uint64,
            Type::Float32 => Type::Float32,
            Type::Float64 => Type::Float64,
            Type::Char => Type::Char,
            Type::Text => Type::Text,
            Type::Byte => Type::Byte,
            Type::Never => Type::Never,
            Type::Unit => Type::Unit,
            Type::Array { element, size } => Type::Array {
                element: Box::new((**element).deep_clone()),
                size: *size,
            },
            Type::Slice { element } => Type::Slice { element: Box::new((**element).deep_clone()) },
            Type::Tuple { elements } => {
                let v = clone_types(elements);
                let r = Type::Tuple { elements: v };
                proof {
                    assert(types_view(v@) =~= types_view(elements@));
                    if let TypeV::Tuple { elements: a } = r@ {
                        if let TypeV::Tuple { elements: b } = self@ {
                            assert(a =~= b);
                        }
                    }
                }
                r
            },
            Type::Option { inner } => Type::Option { inner: Box::new((**inner).deep_clone()) },
            Type::Result { ok, err } => Type::Result {
                ok: Box::new((**ok).deep_clone()),
                err: Box::new((**err).deep_clone()),
            },
            Type::Struct { id, name, generics } => {
                let v = clone_types(generics);
                let r = Type::Struct { id: *id, name: name.clone(), generics: v };
                proof {
                    assert(types_view(v@) =~= types_view(generics@));
                    if let TypeV::Struct { generics: a, .. } = r@ {
                        if let TypeV::Struct { generics: b, .. } = self@ {
                            assert(a =~= b);
                        }
                    }
                }
                r
            },
            Type::Enum { id, name, generics } => {
                let v = clone_types(generics);
                let r = Type::Enum { id: *id, name: name.clone(), generics: v };
                proof {
                    assert(types_view(v@) =~= types_view(generics@));
                    if let TypeV::Enum { generics: a, .. } = r@ {
                        if let TypeV::Enum { generics: b, .. } = self@ {
                            assert(a =~= b);
                        }
                    }
                }
                r
            },
            Type::Ref { inner, mutable } => Type::Ref {
                inner: Box::new((**inner).deep_clone()),
                mutable: *mutable,
            },
            Type::Function { params, ret } => {
                let v = clone_types(params);
                let r = Type::Function { params: v, ret: Box::new((**ret).deep_clone()) };
                proof {
                    assert(types_view(v@) =~= types_view(params@));
                    if let TypeV::Function { params: a, .. } = r@ {
                        if let TypeV::Function { params: b, .. } = self@ {
                            assert(a =~= b);
                        }
                    }
                }
                r
            },
            Type::TypeParam { name } => Type::TypeParam { name: name.clone() },
            Type::UnitAnnotated { base, unit_name } => Type::UnitAnnotated {
                base: Box::new((**base).deep_clone()),
                unit_name: unit_name.clone(),
            },
            Type::Error => Type::Error,
            Type::Inferred { id } => Type::Inferred { id: *id },
        }
    }

    /// Whether this is a numeric type suitable for arithmetic.
    pub fn is_numeric(&self) -> (b: bool)
        ensures
            b == spec_is_numeric(self@),
    {
        match self {
            Type::Int | Type::Int8 | Type::Int16 | Type::Int32 | Type::Int64 | Type::Uint8
            | Type::Uint16 | Type::Uint32 | Type::Uint64 | Type::Byte | Type::Float32
            | Type::Float64 | Type::UnitAnnotated { .. } => true,
            _ => false,
        }
    }

    /// Whether this is an integer type.
    pub fn is_integer(&self) -> (b: bool)
        ensures
            b == spec_is_integer(self@),
    {
        match self {
            Type::Int | Type::Int8 | Type::Int16 | Type::Int32 | Type::Int64 | Type::Uint8
            | Type::Uint16 | Type::Uint32 | Type::Uint64 | Type::Byte => true,
            _ => false,
        }
    }

    /// The width in bits of an integer type; 0 for any other type.
    pub fn int_width(&self) -> (w: u8)
        ensures
            w as int == int_width(self@),
    {
        match self {
            Type::Int8 | Type::Uint8 | Type::Byte => 8,
            Type::Int16 | Type::Uint16 => 16,
            Type::Int32 | Type::Uint32 => 32,
            Type::Int | Type::Int64 | Type::Uint64 => 64,
            _ => 0,
        }
    }

    /// Whether this is a signed integer type.
    pub fn is_signed(&self) -> (b: bool)
        ensures
            b == spec_is_signed(self@),
    {
        match self {
            Type::Int | Type::Int8 | Type::Int16 | Type::Int32 | Type::Int64 => true,
            _ => false,
        }
    }

    /// Whether every value of the integer type `actual` is a value of the
    /// integer type `self`.
    pub fn widens(&self, actual: &Type) -> (b: bool)
        ensures
            b == widens(self@, actual@),
    {
        if !self.is_integer() || !actual.is_integer() {
            return false;
        }
        let same = self.is_signed() == actual.is_signed();
        (same && actual.int_width() <= self.int_width()) || (self.is_signed() && !actual.is_signed()
            && actual.int_width() < self.int_width())
    }

    /// Whether this is a floating-point type.
    pub fn is_float(&self) -> (b: bool)
        ensures
            b == (self@ is Float32 || self@ is Float64),
    {
        match self {
            Type::Float32 | Type::Float64 => true,
            _ => false,
        }
    }

    /// Whether this is the error recovery type.
    pub fn is_error(&self) -> (b: bool)
        ensures
            b == (self@ is Error),
    {
        match self {
            Type::Error => true,
            _ => false,
        }
    }

    /// Whether a value of this type must not be silently dropped: results
    /// of operations that can fail.
    pub fn is_must_use(&self) -> (b: bool)
        ensures
            b == (self@ is Result),
    {
        match self {
            Type::Result { .. } => true,
            _ => false,
        }
    }

    /// The C type name used for code generation.
    pub fn c_type_name(&self) -> (s: String)
        ensures
            s@ == c_name(self@),
        decreases self,
    {
        match self {
            Type::Bool => String::from_str("bool"),
            Type::Int => String::from_str("int64_t"),
            Type::Int8 => String::from_str("int8_t"),
            Type::Int16 => String::from_str("int16_t"),
            Type::Int32 => String::from_str("int32_t"),
            Type::Int64 => String::from_str("int64_t"),
            Type::Uint8 => String::from_str("uint8_t"),
            Type::Uint16 => String::from_str("uint16_t"),
            Type::Uint32 => String::from_str("uint32_t"),
            Type::Uint64 => String::from_str("uint64_t"),
            Type::Float32 => String::from_str("float"),
            Type::Float64 => String::from_str("double"),
            Type::Char => String::from_str("uint32_t"),
            Type::Text => String::from_str("GxcText"),
            Type::Byte => String::from_str("uint8_t"),
            Type::Never => String::from_str("void"),
            Type::Unit => String::from_str("void"),
            Type::Array { element, .. } => String::from_str("GxcArray_").concat(
                element.c_type_name().as_str(),
            ),
            Type::Slice { element } => String::from_str("GxcSlice_").concat(
                element.c_type_name().as_str(),
            ),
            Type::Struct { name, .. } => String::from_str("Gxc_").concat(name.as_str()),
            Type::Enum { name, .. } => String::from_str("Gxc_").concat(name.as_str()),
            Type::Option { inner } => String::from_str("GxcOption_").concat(
                inner.c_type_name().as_str(),
            ),
            Type::Result { ok, err } => String::from_str("GxcResult_").concat(
                ok.c_type_name().as_str(),
            ).concat("_").concat(err.c_type_name().as_str()),
            Type::Ref { inner, .. } => inner.c_type_name().concat("*"),
            Type::Function { .. } => String::from_str("GxcClosure"),
            Type::Tuple { elements } => {
                let parts = c_names_joined(elements, "_");
                let r = String::from_str("GxcTuple_").concat(parts.as_str());
                proof {
                    reveal_strlit("_");
                    if let TypeV::Tuple { elements: e } = self@ {
                        assert(e =~= types_view(elements@));
                    }
                }
                r
            },
            Type::TypeParam { name } => String::from_str("GxcTypeParam_").concat(name.as_str()),
            Type::UnitAnnotated { base, .. } => base.c_type_name(),
            Type::Error => String::from_str("void /* error */"),
            Type::Inferred { id } => String::from_str("GxcInferred_").concat(
                u64_to_text(*id).as_str(),
            ),
        }
    }

    /// Human-readable display name for diagnostics.
    pub fn display_name(&self) -> (s: String)
        ensures
            s@ == display(self@),
        decreases self,
    {
        match self {
            Type::Bool => String::from_str("Bool"),
            Type::Int => String::from_str("Int"),
            Type::Int8 => String::from_str("Int8"),
            Type::Int16 => String::from_str("Int16"),
            Type::Int32 => String::from_str("Int32"),
            Type::Int64 => String::from_str("Int64"),
            Type::Uint8 => String::from_str("Uint8"),
            Type::Uint16 => String::from_str("Uint16"),
            Type::Uint32 => String::from_str("Uint32"),
            Type::Uint64 => String::from_str("Uint64"),
            Type::Float32 => String::from_str("Float32"),
            Type::Float64 => String::from_str("Float64"),
            Type::Char => String::from_str("Char"),
            Type::Text => String::from_str("Text"),
            Type::Byte => String::from_str("Byte"),
            Type::Never => String::from_str("Never"),
            Type::Unit => String::from_str("()"),
            Type::Array { element, size } => String::from_str("[").concat(
                element.display_name().as_str(),
            ).concat("; ").concat(usize_to_text(*size).as_str()).concat("]"),
            Type::Slice { element } => String::from_str("Slice<").concat(
                element.display_name().as_str(),
            ).concat(">"),
            Type::Tuple { elements } => {
                let parts = display_names_joined(elements, ", ");
                let r = String::from_str("(").concat(parts.as_str()).concat(")");
                proof {
                    if let TypeV::Tuple { elements: e } = self@ {
                        assert(e =~= types_view(elements@));
                    }
                }
                r
            },
            Type::Option { inner } => String::from_str("Option<").concat(
                inner.display_name().as_str(),
            ).concat(">"),
            Type::Result { ok, err } => String::from_str("Result<").concat(
                ok.display_name().as_str(),
            ).concat(", ").concat(err.display_name().as_str()).concat(">"),
            Type::Struct { name, generics, .. } => {
                if generics.len() == 0 {
                    name.clone()
                } else {
                    let parts = display_names_joined(generics, ", ");
                    let r = name.clone().concat("<").concat(parts.as_str()).concat(">");
                    proof {
                        if let TypeV::Struct { generics: g, .. } = self@ {
                            assert(g =~= types_view(generics@));
                        }
                    }
                    r
                }
            },
            Type::Enum { name, generics, .. } => {
                if generics.len() == 0 {
                    name.clone()
                } else {
                    let parts = display_names_joined(generics, ", ");
                    let r = name.clone().concat("<").concat(parts.as_str()).concat(">");
                    proof {
                        if let TypeV::Enum { generics: g, .. } = self@ {
                            assert(g =~= types_view(generics@));
                        }
                    }
                    r
                }
            },
            Type::Ref { inner, mutable } => {
                if *mutable {
                    String::from_str("mut ref ").concat(inner.display_name().as_str())
                } else {
                    String::from_str("ref ").concat(inner.display_name().as_str())
                }
            },
            Type::Function { params, ret } => {
                let parts = display_names_joined(params, ", ");
                let r = String::from_str("op(").concat(parts.as_str()).concat(") -> ").concat(
                    ret.display_name().as_str(),
                );
                proof {
                    if let TypeV::Function { params: p, .. } = self@ {
                        assert(p =~= types_view(params@));
                    }
                }
                r
            },
            Type::TypeParam { name } => name.clone(),
            Type::UnitAnnotated { base, unit_name } => base.display_name().concat("<").concat(
                unit_name.as_str(),
            ).concat(">"),
            Type::Error => String::from_str("<error>"),
            Type::Inferred { .. } => String::from_str("<inferred>"),
        }
    }
}

/// Information about a struct type registered in the type environment.
#[derive(Debug)]
pub struct StructInfo {
    pub id: TypeId,
    pub name: String,
    pub fields: Vec<FieldInfo>,
    pub generic_params: Vec<String>,
    pub methods: Vec<FunctionInfo>,
}

/// Information about a single struct or enum field.
#[derive(Debug)]
pub struct FieldInfo {
    pub name: String,
    pub ty: Type,
}

/// Information about an enum type.
#[derive(Debug)]
pub struct EnumInfo {
    pub id: TypeId,
    pub name: String,
    pub variants: Vec<VariantInfo>,
    pub generic_params: Vec<String>,
}

/// Information about a single enum variant.
#[derive(Debug)]
pub struct VariantInfo {
    pub name: String,
    pub fields: Vec<FieldInfo>,
}

/// Information about a function signature.
#[derive(Debug)]
pub struct FunctionInfo {
    pub name: String,
    pub params: Vec<ParamInfo>,
    pub return_type: Type,
    pub generic_params: Vec<String>,
    pub effects: Vec<String>,
    pub is_pub: bool,
}

/// Information about a function parameter.
#[derive(Debug)]
pub struct ParamInfo {
    pub name: String,
    pub ty: Type,
    pub is_mut: bool,
}

/// Information about an ability (trait).
#[derive(Debug)]
pub struct AbilityInfo {
    pub id: TypeId,
    pub name: String,
    pub methods: Vec<FunctionInfo>,
    pub generic_params: Vec<String>,
}

/// Information about a task type.
#[derive(Debug)]
pub struct TaskInfo {
    pub name: String,
    pub entries: Vec<FunctionInfo>,
}

/// Copies of the given types, with the same values.
#[verifier::loop_isolation(false)]
pub fn clone_types(ts: &Vec<Type>) -> (r: Vec<Type>)
    ensures
        r@.len() == ts@.len(),
        forall|i: int| 0 <= i < ts@.len() ==> (#[trigger] r@[i])@ == ts@[i]@,
    decreases ts,
{
    let mut v: Vec<Type> = Vec::new();
    let mut i: usize = 0;
    while i < ts.len()
        invariant
            i <= ts@.len(),
            v@.len() == i,
            forall|j: int| 0 <= j < i ==> (#[trigger] v@[j])@ == ts@[j]@,
        decreases ts@.len() - i,
    {
        let c = ts[i].deep_clone();
        v.push(c);
        i = i + 1;
    }
    v
}

proof fn lemma_take_push<A>(s: Seq<A>, i: int)
    requires
        0 <= i < s.len(),
    ensures
        s.take(i + 1).drop_last() =~= s.take(i),
        s.take(i + 1).last() == s[i],
{
}

/// The C type names of `ts`, joined with `sep`.
#[verifier::loop_isolation(false)]
fn c_names_joined(ts: &Vec<Type>, sep: &str) -> (s: String)
    ensures
        s@ == join(c_parts(types_view(ts@)), sep@),
    decreases ts,
{
    let ghost tv = types_view(ts@);
    let mut s = String::new();
    let mut i: usize = 0;
    while i < ts.len()
        invariant
            i <= ts@.len(),
            s@ == join(c_parts(tv.take(i as int)), sep@),
        decreases ts@.len() - i,
    {
        let part = ts[i].c_type_name();
        proof {
            lemma_take_push(tv, i as int);
            assert(c_parts(tv.take(i + 1)) == c_parts(tv.take(i as int)).push(part@));
            lemma_join_push(c_parts(tv.take(i as int)), sep@, part@);
        }
        if i > 0 {
            s.append(sep);
        }
        s.append(part.as_str());
        i = i + 1;
    }
    assert(tv.take(ts@.len() as int) =~= tv);
    s
}

/// The display names of `ts`, joined with `sep`.
#[verifier::loop_isolation(false)]
fn display_names_joined(ts: &Vec<Type>, sep: &str) -> (s: String)
    ensures
        s@ == display_list(types_view(ts@), sep@),
    decreases ts,
{
    let ghost tv = types_view(ts@);
    let mut s = String::new();
    let mut i: usize = 0;
    while i < ts.len()
        invariant
            i <= ts@.len(),
            s@ == join(display_parts(tv.take(i as int)), sep@),
        decreases ts@.len() - i,
    {
        let part = ts[i].display_name();
        proof {
            lemma_take_push(tv, i as int);
            assert(display_parts(tv.take(i + 1)) == display_parts(tv.take(i as int)).push(part@));
            lemma_join_push(display_parts(tv.take(i as int)), sep@, part@);
        }
        if i > 0 {
            s.append(sep);
        }
        s.append(part.as_str());
        i = i + 1;
    }
    assert(tv.take(ts@.len() as int) =~= tv);
    s
}

} // verus!
