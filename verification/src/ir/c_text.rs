//! The C text of types, expressions and match patterns, as the IR holds it.

use vstd::prelude::*;
use vstd::string::*;
use crate::ast::{
    TypeExpr, Expr, LiteralValue, BinaryOp, UnaryOp, UnaryExpr, Pattern, CallArg, StructFieldInit,
};
use crate::text::{signed_decimal, i64_to_text, char_to_text, str_eq};
use crate::types::types::{join, spec_resolve_primitive, spec_is_integer, spec_is_signed, int_width};
use crate::types::TypeV;
use crate::text::decimal;
use crate::lexer::rules::{punct_at, ascii_of};
use crate::parser::expr::{binary_op_of, unary_op_of};
use super::float_text::{float_display, float_text};

verus! {

broadcast use vstd::std_specs::vec::axiom_vec_index_decreases, vstd::string::group_string_axioms;

/// The C type a type expression is generated as.
pub open spec fn c_of_type_expr(te: TypeExpr) -> Seq<char>
    decreases te,
{
    match te {
        TypeExpr::Named { name, .. } => {
            let n = name@;
            if n == "Bool"@ {
                "bool"@
            } else if n == "Int"@ || n == "Int64"@ {
                "int64_t"@
            } else if n == "Int8"@ {
                "int8_t"@
            } else if n == "Int16"@ {
                "int16_t"@
            } else if n == "Int32"@ {
                "int32_t"@
            } else if n == "Uint8"@ || n == "Byte"@ {
                "uint8_t"@
            } else if n == "Uint16"@ {
                "uint16_t"@
            } else if n == "Uint32"@ {
                "uint32_t"@
            } else if n == "Uint64"@ {
                "uint64_t"@
            } else if n == "Float32"@ {
                "float"@
            } else if n == "Float64"@ {
                "double"@
            } else if n == "Text"@ {
                "GxcText"@
            } else if n == "Char"@ {
                "uint32_t"@
            } else {
                "Gxc_"@ + n
            }
        },
        TypeExpr::UnitType { base, .. } => {
            let n = base@;
            if n == "Float64"@ {
                "double"@
            } else if n == "Float32"@ {
                "float"@
            } else if n == "Int"@ || n == "Int64"@ {
                "int64_t"@
            } else {
                "double"@
            }
        },
        TypeExpr::SelfType { .. } => "void*"@,
        TypeExpr::Reference { inner, .. } => c_of_type_expr(*inner) + "*"@,
        TypeExpr::Array { element, .. } => "GxcArray_"@ + c_of_type_expr(*element),
        _ => "int64_t"@,
    }
}

/// A GalaxC integer type is generated as the C fixed-width integer type of
/// the same width and signedness, `intN_t` or `uintN_t` with `N` its width
/// in bits.
#[verifier::rlimit(50)]
pub proof fn law_c_integer_types(te: TypeExpr)
    requires
        te matches TypeExpr::Named { name, .. } && spec_resolve_primitive(name@) matches Some(t) && spec_is_integer(t),
    ensures
        ({
            let t = spec_resolve_primitive(te->Named_name@).unwrap();
            c_of_type_expr(te) == (if spec_is_signed(t) {
                ""@
            } else {
                "u"@
            }) + "int"@ + decimal(int_width(t) as nat) + "_t"@
        }),
{
    reveal_strlit("");
    reveal_strlit("Bool");
    reveal_strlit("Int");
    reveal_strlit("Int8");
    reveal_strlit("Int16");
    reveal_strlit("Int32");
    reveal_strlit("Int64");
    reveal_strlit("Uint8");
    reveal_strlit("Uint16");
    reveal_strlit("Uint32");
    reveal_strlit("Uint64");
    reveal_strlit("Float32");
    reveal_strlit("Float64");
    reveal_strlit("Text");
    reveal_strlit("Char");
    reveal_strlit("Byte");
    reveal_strlit("Unit");
    reveal_strlit("Never");
    reveal_strlit("bool");
    reveal_strlit("int64_t");
    reveal_strlit("int8_t");
    reveal_strlit("int16_t");
    reveal_strlit("int32_t");
    reveal_strlit("uint8_t");
    reveal_strlit("uint16_t");
    reveal_strlit("uint32_t");
    reveal_strlit("uint64_t");
    reveal_strlit("float");
    reveal_strlit("double");
    reveal_strlit("GxcText");
    reveal_strlit("u");
    reveal_strlit("int");
    reveal_strlit("_t");
    reveal_with_fuel(decimal, 3);
    let t = spec_resolve_primitive(te->Named_name@).unwrap();
    let expect = (if spec_is_signed(t) {
        ""@
    } else {
        "u"@
    }) + "int"@ + decimal(int_width(t) as nat) + "_t"@;
    match t {
        TypeV::Int => {
            reveal_strlit("int64_t");
            assert(decimal(64) =~= seq!['6', '4']);
            assert(te->Named_name@ == "Int"@);
            assert(c_of_type_expr(te) == "int64_t"@);
            assert(expect == (if spec_is_signed(t) { ""@ } else { "u"@ }) + "int"@ + decimal(int_width(t) as nat) + "_t"@);
            assert(expect =~= "int64_t"@);
        },
        TypeV::Int64 => {
            reveal_strlit("int64_t");
            assert(decimal(64) =~= seq!['6', '4']);
            assert(te->Named_name@ == "Int64"@);
            assert(c_of_type_expr(te) == "int64_t"@);
            assert(expect == (if spec_is_signed(t) { ""@ } else { "u"@ }) + "int"@ + decimal(int_width(t) as nat) + "_t"@);
            assert(expect =~= "int64_t"@);
        },
        TypeV::Int8 => {
            reveal_strlit("int8_t");
            assert(decimal(8) =~= seq!['8']);
            assert(te->Named_name@ == "Int8"@);
            assert(c_of_type_expr(te) == "int8_t"@);
            assert(expect == (if spec_is_signed(t) { ""@ } else { "u"@ }) + "int"@ + decimal(int_width(t) as nat) + "_t"@);
            assert(expect =~= "int8_t"@);
        },
        TypeV::Int16 => {
            reveal_strlit("int16_t");
            assert(decimal(16) =~= seq!['1', '6']);
            assert(te->Named_name@ == "Int16"@);
            assert("Int16"@[3] != "Int64"@[3]);
            assert("Int16"@ != "Int64"@);
            assert("Int16"@ != "Int8"@);
            assert(c_of_type_expr(te) == "int16_t"@);
            assert(expect == (if spec_is_signed(t) { ""@ } else { "u"@ }) + "int"@ + decimal(int_width(t) as nat) + "_t"@);
            assert(expect =~= "int16_t"@);
        },
        TypeV::Int32 => {
            reveal_strlit("int32_t");
            assert(decimal(32) =~= seq!['3', '2']);
            assert(te->Named_name@ == "Int32"@);
            assert("Int32"@[3] != "Int64"@[3]);
            assert("Int32"@ != "Int64"@);
            assert("Int32"@ != "Int8"@);
            assert(c_of_type_expr(te) == "int32_t"@);
            assert(expect == (if spec_is_signed(t) { ""@ } else { "u"@ }) + "int"@ + decimal(int_width(t) as nat) + "_t"@);
            assert(expect =~= "int32_t"@);
        },
        TypeV::Uint8 => {
            reveal_strlit("uint8_t");
            assert(decimal(8) =~= seq!['8']);
            assert(te->Named_name@ == "Uint8"@);
            assert(c_of_type_expr(te) == "uint8_t"@);
            assert(expect == (if spec_is_signed(t) { ""@ } else { "u"@ }) + "int"@ + decimal(int_width(t) as nat) + "_t"@);
            assert(expect =~= "uint8_t"@);
        },
        TypeV::Byte => {
            reveal_strlit("uint8_t");
            assert(decimal(8) =~= seq!['8']);
            assert(te->Named_name@ == "Byte"@);
            assert(c_of_type_expr(te) == "uint8_t"@);
            assert(expect == (if spec_is_signed(t) { ""@ } else { "u"@ }) + "int"@ + decimal(int_width(t) as nat) + "_t"@);
            assert(expect =~= "uint8_t"@);
        },
        TypeV::Uint16 => {
            reveal_strlit("uint16_t");
            assert(decimal(16) =~= seq!['1', '6']);
            assert(te->Named_name@ == "Uint16"@);
            assert(c_of_type_expr(te) == "uint16_t"@);
            assert(expect == (if spec_is_signed(t) { ""@ } else { "u"@ }) + "int"@ + decimal(int_width(t) as nat) + "_t"@);
            assert(expect =~= "uint16_t"@);
        },
        TypeV::Uint32 => {
            reveal_strlit("uint32_t");
            assert(decimal(32) =~= seq!['3', '2']);
            assert(te->Named_name@ == "Uint32"@);
            assert(c_of_type_expr(te) == "uint32_t"@);
            assert(expect == (if spec_is_signed(t) { ""@ } else { "u"@ }) + "int"@ + decimal(int_width(t) as nat) + "_t"@);
            assert(expect =~= "uint32_t"@);
        },
        TypeV::Uint64 => {
            reveal_strlit("uint64_t");
            assert(decimal(64) =~= seq!['6', '4']);
            assert(te->Named_name@ == "Uint64"@);
            assert(c_of_type_expr(te) == "uint64_t"@);
            assert(expect == (if spec_is_signed(t) { ""@ } else { "u"@ }) + "int"@ + decimal(int_width(t) as nat) + "_t"@);
            assert(expect =~= "uint64_t"@);
        },
        _ => {},
    }
}

/// The C operator for a binary operator.
pub open spec fn c_operator(op: BinaryOp) -> Seq<char> {
    match op {
        BinaryOp::Add => "+"@,
        BinaryOp::Sub => "-"@,
        BinaryOp::Mul => "*"@,
        BinaryOp::Div => "/"@,
        BinaryOp::Mod => "%"@,
        BinaryOp::Eq => "=="@,
        BinaryOp::NotEq => "!="@,
        BinaryOp::Lt => "<"@,
        BinaryOp::Gt => ">"@,
        BinaryOp::LtEq => "<="@,
        BinaryOp::GtEq => ">="@,
        BinaryOp::And => "&&"@,
        BinaryOp::Or => "||"@,
        BinaryOp::BitAnd => "&"@,
        BinaryOp::BitOr => "|"@,
        BinaryOp::BitXor => "^"@,
        BinaryOp::ShiftLeft => "<<"@,
        BinaryOp::ShiftRight => ">>"@,
    }
}

/// The C text of a prefix operation is its operand behind the operator's
/// C mark, in parentheses: the GalaxC lexer reads the marks of `-` and `~`
/// back as those very prefix operators, and `not` becomes C's `!`.
pub proof fn law_c_unary_reads_back(un: UnaryExpr)
    ensures
        exists|m: Seq<char>|
            #![trigger ascii_of(m)]
            {
                &&& m.len() == 1
                &&& c_of_expr(Expr::Unary(un)) == "("@ + m + c_of_expr(*un.operand) + ")"@
                &&& un.op != UnaryOp::Not ==> (punct_at(ascii_of(m).push(32u8), 0) matches Some((k, n)) && n == 1
                    && unary_op_of(k) == Some(un.op))
                &&& un.op == UnaryOp::Not ==> m == seq!['!']
            },
{
    reveal_strlit("(");
    reveal_strlit("(-");
    reveal_strlit("(!");
    reveal_strlit("(~");
    let m = match un.op {
        UnaryOp::Neg => seq!['-'],
        UnaryOp::Not => seq!['!'],
        UnaryOp::BitNot => seq!['~'],
    };
    let inner = c_of_expr(*un.operand);
    assert(c_of_expr(Expr::Unary(un)) =~= "("@ + m + inner + ")"@);
    assert(ascii_of(m).push(32u8)[0] == m[0] as u8);
}

/// The C text of an operator means what the operator means: for every
/// operator but `and` and `or`, the GalaxC lexer reads the C text back as
/// one token that stands for that very operator; `and` and `or` become the
/// bitwise marks doubled, `&&` and `||`.
pub proof fn law_c_operator_reads_back(op: BinaryOp)
    ensures
        op != BinaryOp::And && op != BinaryOp::Or ==> (punct_at(ascii_of(c_operator(op)).push(32u8), 0) matches Some(
            (k, n),
        ) && n == c_operator(op).len() && binary_op_of(k) == Some(op)),
        op == BinaryOp::And ==> c_operator(op) == c_operator(BinaryOp::BitAnd) + c_operator(BinaryOp::BitAnd),
        op == BinaryOp::Or ==> c_operator(op) == c_operator(BinaryOp::BitOr) + c_operator(BinaryOp::BitOr),
{
    reveal_strlit("+");
    reveal_strlit("-");
    reveal_strlit("*");
    reveal_strlit("/");
    reveal_strlit("%");
    reveal_strlit("==");
    reveal_strlit("!=");
    reveal_strlit("<");
    reveal_strlit(">");
    reveal_strlit("<=");
    reveal_strlit(">=");
    reveal_strlit("&&");
    reveal_strlit("||");
    reveal_strlit("&");
    reveal_strlit("|");
    reveal_strlit("^");
    reveal_strlit("<<");
    reveal_strlit(">>");
    assert(c_operator(BinaryOp::And) =~= c_operator(BinaryOp::BitAnd) + c_operator(BinaryOp::BitAnd));
    assert(c_operator(BinaryOp::Or) =~= c_operator(BinaryOp::BitOr) + c_operator(BinaryOp::BitOr));
}

/// No two operators share a C text.
pub proof fn law_c_operator_distinct(a: BinaryOp, b: BinaryOp)
    requires
        c_operator(a) == c_operator(b),
    ensures
        a == b,
{
    reveal_strlit("+");
    reveal_strlit("-");
    reveal_strlit("*");
    reveal_strlit("/");
    reveal_strlit("%");
    reveal_strlit("==");
    reveal_strlit("!=");
    reveal_strlit("<");
    reveal_strlit(">");
    reveal_strlit("<=");
    reveal_strlit(">=");
    reveal_strlit("&&");
    reveal_strlit("||");
    reveal_strlit("&");
    reveal_strlit("|");
    reveal_strlit("^");
    reveal_strlit("<<");
    reveal_strlit(">>");
    law_c_operator_reads_back(a);
    law_c_operator_reads_back(b);
}

/// The octal digit `d`, for `d` below 8.
pub open spec fn octal_digit(d: u32) -> char {
    if d == 0 {
        '0'
    } else if d == 1 {
        '1'
    } else if d == 2 {
        '2'
    } else if d == 3 {
        '3'
    } else if d == 4 {
        '4'
    } else if d == 5 {
        '5'
    } else if d == 6 {
        '6'
    } else {
        '7'
    }
}

/// How the character `c` is written inside a C string literal: a quote
/// or a backslash behind a backslash; a line feed, a tab and a carriage
/// return by their letters; any other control character as three octal
/// digits; every other character as itself.
pub open spec fn c_escape_char(c: char) -> Seq<char> {
    if c == '"' {
        seq!['\\', '"']
    } else if c == '\\' {
        seq!['\\', '\\']
    } else if c == '\n' {
        seq!['\\', 'n']
    } else if c == '\t' {
        seq!['\\', 't']
    } else if c == '\r' {
        seq!['\\', 'r']
    } else if (c as u32) < 32 || (c as u32) == 127 {
        seq!['\\', octal_digit((c as u32) / 64), octal_digit(((c as u32) / 8) % 8), octal_digit((c as u32) % 8)]
    } else {
        seq![c]
    }
}

/// The text `s` written as the inside of a C string literal, each
/// character as `c_escape_char` writes it.
pub open spec fn c_escape(s: Seq<char>) -> Seq<char>
    decreases s.len(),
{
    if s.len() == 0 {
        Seq::empty()
    } else {
        c_escape(s.drop_last()) + c_escape_char(s.last())
    }
}

/// The value of an octal digit character.
pub open spec fn octal_value(c: char) -> u32 {
    ((c as u32) - 48) as u32
}

/// Whether `c` is an octal digit.
pub open spec fn is_octal(c: char) -> bool {
    '0' <= c <= '7'
}

/// What a C compiler reads from the inside `t` of a string literal: a
/// backslash before `n`, `t`, `r`, a quote or a backslash stands for a
/// line feed, a tab, a carriage return, a quote or a backslash; before
/// three octal digits, for the character of that code; every other
/// character stands for itself.
pub open spec fn c_unescape(t: Seq<char>) -> Seq<char>
    decreases t.len(),
{
    if t.len() == 0 {
        Seq::empty()
    } else if t[0] == '\\' && t.len() >= 2 && (t[1] == 'n' || t[1] == 't' || t[1] == 'r' || t[1] == '"' || t[1]
        == '\\') {
        let c = if t[1] == 'n' {
            '\n'
        } else if t[1] == 't' {
            '\t'
        } else if t[1] == 'r' {
            '\r'
        } else {
            t[1]
        };
        seq![c] + c_unescape(t.subrange(2, t.len() as int))
    } else if t[0] == '\\' && t.len() >= 4 && is_octal(t[1]) && is_octal(t[2]) && is_octal(t[3]) {
        let v = octal_value(t[1]) * 64 + octal_value(t[2]) * 8 + octal_value(t[3]);
        seq![(v as u32) as char] + c_unescape(t.subrange(4, t.len() as int))
    } else {
        seq![t[0]] + c_unescape(t.subrange(1, t.len() as int))
    }
}

/// One escaped character, then anything: the C compiler reads the
/// character back, then goes on with the rest.
proof fn lemma_unescape_char(c: char, rest: Seq<char>)
    ensures
        c_unescape(c_escape_char(c) + rest) == seq![c] + c_unescape(rest),
{
    let e = c_escape_char(c);
    let t = e + rest;
    assert(t.subrange(e.len() as int, t.len() as int) =~= rest);
    if (c as u32) < 32 || (c as u32) == 127 {
        let v = c as u32;
        assert(octal_value(octal_digit(v / 64)) == v / 64);
        assert(octal_value(octal_digit((v / 8) % 8)) == (v / 8) % 8);
        assert(octal_value(octal_digit(v % 8)) == v % 8);
        assert((v / 64) * 64 + ((v / 8) % 8) * 8 + v % 8 == v);
    }
}

/// Escaping from the front: the escape of the first character, then that
/// of the rest.
proof fn lemma_escape_front(s: Seq<char>)
    requires
        s.len() > 0,
    ensures
        c_escape(s) == c_escape_char(s[0]) + c_escape(s.drop_first()),
    decreases s.len(),
{
    if s.len() == 1 {
        assert(s.drop_last() =~= Seq::<char>::empty());
        assert(s.drop_first() =~= Seq::<char>::empty());
        assert(c_escape(s) =~= c_escape_char(s[0]) + c_escape(s.drop_first()));
    } else {
        lemma_escape_front(s.drop_last());
        assert(s.drop_last().drop_first() =~= s.drop_first().drop_last());
        assert(s.drop_first().last() == s.last());
        assert(c_escape(s) =~= c_escape_char(s[0]) + c_escape(s.drop_first()));
    }
}

/// A C compiler reads back from an escaped string exactly the text that
/// was escaped.
pub proof fn law_c_escape_reads_back(s: Seq<char>)
    ensures
        c_unescape(c_escape(s)) == s,
    decreases s.len(),
{
    if s.len() == 0 {
    } else {
        lemma_escape_front(s);
        lemma_unescape_char(s[0], c_escape(s.drop_first()));
        law_c_escape_reads_back(s.drop_first());
        assert(seq![s[0]] + s.drop_first() =~= s);
    }
}

/// The C text of a literal.
pub open spec fn c_of_literal(v: LiteralValue) -> Seq<char> {
    match v {
        LiteralValue::Int(n) => signed_decimal(n as int) + "LL"@,
        LiteralValue::Float(t) => float_display(t@, true),
        LiteralValue::String(s) => "gxc_text_from(\""@ + c_escape(s@) + "\")"@,
        LiteralValue::Char(c) => "'"@ + seq![c] + "'"@,
        LiteralValue::Bool(b) => if b {
            "true"@
        } else {
            "false"@
        },
        LiteralValue::None_ => "GXC_NONE"@,
    }
}

/// The C text of an expression. Forms with no C counterpart yet render
/// as a comment.
pub open spec fn c_of_expr(e: Expr) -> Seq<char>
    decreases e, 0int,
{
    match e {
        Expr::Literal(lit) => c_of_literal(lit.value),
        Expr::Identifier(id) => id.name@,
        Expr::Binary(bin) => "("@ + c_of_expr(*bin.left) + " "@ + c_operator(bin.op) + " "@ + c_of_expr(
            *bin.right,
        ) + ")"@,
        Expr::Unary(un) => match un.op {
            UnaryOp::Neg => "(-"@ + c_of_expr(*un.operand) + ")"@,
            UnaryOp::Not => "(!"@ + c_of_expr(*un.operand) + ")"@,
            UnaryOp::BitNot => "(~"@ + c_of_expr(*un.operand) + ")"@,
        },
        Expr::Call(call) => c_of_expr(*call.callee) + "("@ + c_of_args(call.args) + ")"@,
        Expr::MethodCall(mc) => {
            let receiver = c_of_expr(*mc.receiver);
            if receiver == "console"@ {
                "GxcConsole_"@ + mc.method@ + "("@ + c_of_args(mc.args) + ")"@
            } else {
                receiver + "."@ + mc.method@ + "("@ + c_of_args(mc.args) + ")"@
            }
        },
        Expr::FieldAccess(fa) => c_of_expr(*fa.object) + "."@ + fa.field@,
        Expr::Index(idx) => "gxc_bounds_check("@ + c_of_expr(*idx.object) + ", "@ + c_of_expr(
            *idx.index,
        ) + ")"@,
        Expr::StructLiteral(sl) => "(Gxc_"@ + sl.name@ + "){ "@ + c_of_field_inits(sl.fields) + " }"@,
        Expr::Concat(c) => "gxc_text_concat("@ + c_of_expr(*c.left) + ", "@ + c_of_expr(*c.right)
            + ")"@,
        Expr::Path(p) => join(Seq::new(p.segments@.len(), |i: int| p.segments@[i]@), "_"@),
        Expr::SelfExpr(_) => "self"@,
        Expr::Propagate(p) => "GXC_PROPAGATE("@ + c_of_expr(*p.inner) + ")"@,
        Expr::Range(r) => "gxc_range("@ + c_of_expr(*r.start) + ", "@ + c_of_expr(*r.end) + ")"@,
        _ => "/* unhandled expr */"@,
    }
}

/// The C texts of call arguments' values, joined with `, `.
pub open spec fn c_of_args(args: Vec<CallArg>) -> Seq<char>
    decreases args, 1int,
{
    join(arg_texts(args), ", "@)
}

/// The C texts of call arguments' values.
pub open spec fn arg_texts(args: Vec<CallArg>) -> Seq<Seq<char>>
    decreases args, 0int,
{
    Seq::new(
        args@.len(),
        |i: int|
            if 0 <= i < args@.len() {
                c_of_expr(args@[i].value)
            } else {
                Seq::empty()
            },
    )
}

/// The C designated initialisers `.name = value` of struct fields, joined
/// with `, `.
pub open spec fn c_of_field_inits(fields: Vec<StructFieldInit>) -> Seq<char>
    decreases fields, 1int,
{
    join(field_init_texts(fields), ", "@)
}

/// The C designated initialisers `.name = value` of struct fields.
pub open spec fn field_init_texts(fields: Vec<StructFieldInit>) -> Seq<Seq<char>>
    decreases fields, 0int,
{
    Seq::new(
        fields@.len(),
        |i: int|
            if 0 <= i < fields@.len() {
                "."@ + fields@[i].name@ + " = "@ + c_of_expr(fields@[i].value)
            } else {
                Seq::empty()
            },
    )
}

/// The C type given to a variable initialised with `e` when no type is
/// declared: the type of a literal, `bool` for comparisons and logic, the
/// left operand's type for other binary operators, text for
/// concatenation, and `int64_t` otherwise.
pub open spec fn c_type_of_value(e: Expr) -> Seq<char>
    decreases e,
{
    match e {
        Expr::Literal(lit) => match lit.value {
            LiteralValue::Int(_) => "int64_t"@,
            LiteralValue::Float(_) => "double"@,
            LiteralValue::String(_) => "GxcText"@,
            LiteralValue::Char(_) => "uint32_t"@,
            LiteralValue::Bool(_) => "bool"@,
            LiteralValue::None_ => "GxcOption"@,
        },
        Expr::Binary(bin) => match bin.op {
            BinaryOp::Eq | BinaryOp::NotEq | BinaryOp::Lt | BinaryOp::Gt | BinaryOp::LtEq
            | BinaryOp::GtEq | BinaryOp::And | BinaryOp::Or => "bool"@,
            _ => c_type_of_value(*bin.left),
        },
        Expr::Concat(_) => "GxcText"@,
        _ => "int64_t"@,
    }
}

/// What std's `str::to_uppercase` makes of a text: each character mapped
/// to its upper-case form by the Unicode rules.
pub uninterp spec fn upper_case(s: Seq<char>) -> Seq<char>;

/// `s` with the ASCII letters `a` to `z` made upper case.
pub open spec fn ascii_upper(s: Seq<char>) -> Seq<char> {
    Seq::new(s.len(), |i: int| if 'a' <= s[i] <= 'z' { ((s[i] as u32) - 32) as char } else { s[i] })
}

/// The upper-case form of `s` (std's `str::to_uppercase`); for ASCII text
/// that is its letters `a` to `z` made upper case.
#[verifier::external_body]
fn to_upper_text(s: &str) -> (r: String)
    ensures
        r@ == upper_case(s@),
        (forall|i: int| 0 <= i < s@.len() ==> (s@[i] as u32) < 128) ==> r@ == ascii_upper(s@),
{
    s.to_uppercase()
}

/// The C condition under which `subject` matches `pattern`.
pub open spec fn c_condition(subject: Seq<char>, pattern: Pattern) -> Seq<char> {
    match pattern {
        Pattern::Literal { value, .. } => {
            let lit = match value {
                LiteralValue::Int(n) => signed_decimal(n as int),
                LiteralValue::Float(t) => float_display(t@, false),
                LiteralValue::Bool(b) => if b {
                    "true"@
                } else {
                    "false"@
                },
                LiteralValue::String(s) => "gxc_text_eq("@ + subject + ", \""@ + c_escape(s@) + "\")"@,
                LiteralValue::Char(c) => "'"@ + seq![c] + "'"@,
                LiteralValue::None_ => "0"@,
            };
            subject + " == "@ + lit
        },
        Pattern::Variant { path, .. } => {
            let variant = if path@.len() > 0 {
                path@.last()@
            } else {
                Seq::empty()
            };
            subject + ".tag == GXC_TAG_"@ + upper_case(variant)
        },
        _ => "1"@,
    }
}

/// The views of a list of texts.
pub open spec fn texts(v: Seq<String>) -> Seq<Seq<char>> {
    Seq::new(v.len(), |i: int| v[i]@)
}

/// The texts of `parts` joined with `sep`.
pub fn join_texts(parts: &Vec<String>, sep: &str) -> (r: String)
    ensures
        r@ == join(texts(parts@), sep@),
{
    let mut out = String::new();
    let mut i: usize = 0;
    while i < parts.len()
        invariant
            i <= parts@.len(),
            out@ == join(texts(parts@.subrange(0, i as int)), sep@),
        decreases parts@.len() - i,
    {
        if i > 0 {
            out.append(sep);
        }
        out.append(parts[i].as_str());
        proof {
            let a = texts(parts@.subrange(0, i + 1));
            assert(a.drop_last() =~= texts(parts@.subrange(0, i as int)));
            assert(a.last() == parts@[i as int]@);
        }
        i = i + 1;
    }
    assert(parts@.subrange(0, parts@.len() as int) =~= parts@);
    out
}

/// The C type a type expression is generated as.
pub fn type_expr_to_c(te: &TypeExpr) -> (r: String)
    ensures
        r@ == c_of_type_expr(*te),
    decreases te,
{
    proof {
        reveal_strlit("Bool");
        reveal_strlit("Int");
        reveal_strlit("Int64");
        reveal_strlit("Int8");
        reveal_strlit("Int16");
        reveal_strlit("Int32");
        reveal_strlit("Uint8");
        reveal_strlit("Byte");
        reveal_strlit("Uint16");
        reveal_strlit("Uint32");
        reveal_strlit("Uint64");
        reveal_strlit("Float32");
        reveal_strlit("Float64");
        reveal_strlit("Text");
        reveal_strlit("Char");
    }
    match te {
        TypeExpr::Named { name, .. } => {
            let n = name.as_str();
            if str_eq(n, "Bool") {
                String::from_str("bool")
            } else if str_eq(n, "Int") || str_eq(n, "Int64") {
                String::from_str("int64_t")
            } else if str_eq(n, "Int8") {
                String::from_str("int8_t")
            } else if str_eq(n, "Int16") {
                String::from_str("int16_t")
            } else if str_eq(n, "Int32") {
                String::from_str("int32_t")
            } else if str_eq(n, "Uint8") || str_eq(n, "Byte") {
                String::from_str("uint8_t")
            } else if str_eq(n, "Uint16") {
                String::from_str("uint16_t")
            } else if str_eq(n, "Uint32") {
                String::from_str("uint32_t")
            } else if str_eq(n, "Uint64") {
                String::from_str("uint64_t")
            } else if str_eq(n, "Float32") {
                String::from_str("float")
            } else if str_eq(n, "Float64") {
                String::from_str("double")
            } else if str_eq(n, "Text") {
                String::from_str("GxcText")
            } else if str_eq(n, "Char") {
                String::from_str("uint32_t")
            } else {
                String::from_str("Gxc_").concat(n)
            }
        },
        TypeExpr::UnitType { base, .. } => {
            let n = base.as_str();
            if str_eq(n, "Float64") {
                String::from_str("double")
            } else if str_eq(n, "Float32") {
                String::from_str("float")
            } else if str_eq(n, "Int") || str_eq(n, "Int64") {
                String::from_str("int64_t")
            } else {
                String::from_str("double")
            }
        },
        TypeExpr::SelfType { .. } => String::from_str("void*"),
        TypeExpr::Reference { inner, .. } => type_expr_to_c(inner).concat("*"),
        TypeExpr::Array { element, .. } => {
            let inner = type_expr_to_c(element);
            String::from_str("GxcArray_").concat(inner.as_str())
        },
        _ => String::from_str("int64_t"),
    }
}

fn c_operator_text(op: BinaryOp) -> (s: &'static str)
    ensures
        s@ == c_operator(op),
{
    match op {
        BinaryOp::Add => "+",
        BinaryOp::Sub => "-",
        BinaryOp::Mul => "*",
        BinaryOp::Div => "/",
        BinaryOp::Mod => "%",
        BinaryOp::Eq => "==",
        BinaryOp::NotEq => "!=",
        BinaryOp::Lt => "<",
        BinaryOp::Gt => ">",
        BinaryOp::LtEq => "<=",
        BinaryOp::GtEq => ">=",
        BinaryOp::And => "&&",
        BinaryOp::Or => "||",
        BinaryOp::BitAnd => "&",
        BinaryOp::BitOr => "|",
        BinaryOp::BitXor => "^",
        BinaryOp::ShiftLeft => "<<",
        BinaryOp::ShiftRight => ">>",
    }
}

/// The octal digit `d`, for `d` below 8.
fn octal_char(d: u32) -> (c: char)
    requires
        d < 8,
    ensures
        c == octal_digit(d),
{
    if d == 0 {
        '0'
    } else if d == 1 {
        '1'
    } else if d == 2 {
        '2'
    } else if d == 3 {
        '3'
    } else if d == 4 {
        '4'
    } else if d == 5 {
        '5'
    } else if d == 6 {
        '6'
    } else {
        '7'
    }
}

/// How the character `c` is written inside a C string literal.
fn escape_char(c: char) -> (r: String)
    ensures
        r@ == c_escape_char(c),
{
    let code = c as u32;
    let mut out = String::new();
    if c == '"' || c == '\\' {
        out.append("\\");
        out.append(char_to_text(c).as_str());
    } else if c == '\n' {
        out.append("\\n");
    } else if c == '\t' {
        out.append("\\t");
    } else if c == '\r' {
        out.append("\\r");
    } else if code < 32 || code == 127 {
        out.append("\\");
        out.append(char_to_text(octal_char(code / 64)).as_str());
        out.append(char_to_text(octal_char((code / 8) % 8)).as_str());
        out.append(char_to_text(octal_char(code % 8)).as_str());
    } else {
        out.append(char_to_text(c).as_str());
    }
    proof {
        reveal_strlit("\\");
        reveal_strlit("\\n");
        reveal_strlit("\\t");
        reveal_strlit("\\r");
    }
    assert(out@ =~= c_escape_char(c));
    out
}

/// The text `s` written as the inside of a C string literal.
pub fn c_escaped(s: &str) -> (r: String)
    ensures
        r@ == c_escape(s@),
{
    let n = s.unicode_len();
    let mut out = String::new();
    let mut i: usize = 0;
    while i < n
        invariant
            n == s@.len(),
            i <= n,
            out@ == c_escape(s@.subrange(0, i as int)),
        decreases n - i,
    {
        let c = s.get_char(i);
        let piece = escape_char(c);
        out.append(piece.as_str());
        assert(s@.subrange(0, i + 1).drop_last() =~= s@.subrange(0, i as int));
        i = i + 1;
    }
    assert(s@.subrange(0, n as int) =~= s@);
    out
}

/// The C text of a literal.
pub fn literal_to_c(v: &LiteralValue) -> (r: String)
    ensures
        r@ == c_of_literal(*v),
{
    match v {
        LiteralValue::Int(n) => i64_to_text(*n).concat("LL"),
        LiteralValue::Float(t) => float_text(t.as_str(), true),
        LiteralValue::String(s) => String::from_str("gxc_text_from(\"").concat(c_escaped(s.as_str()).as_str()).concat(
            "\")",
        ),
        LiteralValue::Char(c) => {
            let ch = char_to_text(*c);
            String::from_str("'").concat(ch.as_str()).concat("'")
        },
        LiteralValue::Bool(b) => if *b {
            String::from_str("true")
        } else {
            String::from_str("false")
        },
        LiteralValue::None_ => String::from_str("GXC_NONE"),
    }
}

/// The C texts of the values of a list of call arguments.
fn args_to_c(args: &Vec<CallArg>) -> (r: Vec<String>)
    ensures
        r@.len() == args@.len(),
        forall|i: int| 0 <= i < args@.len() ==> (#[trigger] r@[i])@ == c_of_expr(args@[i].value),
    decreases args, 0int,
{
    let mut out: Vec<String> = Vec::new();
    let mut i: usize = 0;
    while i < args.len()
        invariant
            i <= args@.len(),
            out@.len() == i,
            forall|j: int| 0 <= j < i ==> (#[trigger] out@[j])@ == c_of_expr(args@[j].value),
        decreases args@.len() - i,
    {
        out.push(expr_to_c(&args[i].value));
        i = i + 1;
    }
    out
}

/// The C designated initialisers of a list of struct fields.
fn fields_to_c(fields: &Vec<StructFieldInit>) -> (r: Vec<String>)
    ensures
        r@.len() == fields@.len(),
        forall|i: int|
            0 <= i < fields@.len() ==> (#[trigger] r@[i])@ == "."@ + fields@[i].name@ + " = "@
                + c_of_expr(fields@[i].value),
    decreases fields, 0int,
{
    let mut out: Vec<String> = Vec::new();
    let mut i: usize = 0;
    while i < fields.len()
        invariant
            i <= fields@.len(),
            out@.len() == i,
            forall|j: int|
                0 <= j < i ==> (#[trigger] out@[j])@ == "."@ + fields@[j].name@ + " = "@ + c_of_expr(
                    fields@[j].value,
                ),
        decreases fields@.len() - i,
    {
        let value = expr_to_c(&fields[i].value);
        out.push(String::from_str(".").concat(fields[i].name.as_str()).concat(" = ").concat(value.as_str()));
        i = i + 1;
    }
    out
}

/// The C texts of call arguments' values, joined with `, `.
fn args_text(args: &Vec<CallArg>) -> (r: String)
    ensures
        r@ == c_of_args(*args),
    decreases args, 1int,
{
    let parts = args_to_c(args);
    let joined = join_texts(&parts, ", ");
    proof {
        assert(texts(parts@) =~= arg_texts(*args));
    }
    joined
}

/// The C designated initialisers of struct fields, joined with `, `.
fn field_inits_text(fields: &Vec<StructFieldInit>) -> (r: String)
    ensures
        r@ == c_of_field_inits(*fields),
    decreases fields, 1int,
{
    let parts = fields_to_c(fields);
    let joined = join_texts(&parts, ", ");
    proof {
        assert(texts(parts@) =~= field_init_texts(*fields));
    }
    joined
}

/// The C text of an expression.
#[verifier::spinoff_prover]
#[verifier::rlimit(60)]
pub fn expr_to_c(e: &Expr) -> (r: String)
    ensures
        r@ == c_of_expr(*e),
    decreases e, 0int,
{
    match e {
        Expr::Literal(lit) => {
            let r = literal_to_c(&lit.value);
            r
        },
        Expr::Identifier(id) => id.name.clone(),
        Expr::Binary(bin) => {
            let left = expr_to_c(&bin.left);
            let right = expr_to_c(&bin.right);
            String::from_str("(").concat(left.as_str()).concat(" ").concat(c_operator_text(bin.op)).concat(
                " ",
            ).concat(right.as_str()).concat(")")
        },
        Expr::Unary(un) => {
            let operand = expr_to_c(&un.operand);
            let head = match un.op {
                UnaryOp::Neg => "(-",
                UnaryOp::Not => "(!",
                UnaryOp::BitNot => "(~",
            };
            String::from_str(head).concat(operand.as_str()).concat(")")
        },
        Expr::Call(call) => {
            let callee = expr_to_c(&call.callee);
            let joined = args_text(&call.args);
            callee.concat("(").concat(joined.as_str()).concat(")")
        },
        Expr::MethodCall(mc) => {
            let receiver = expr_to_c(&mc.receiver);
            let joined = args_text(&mc.args);
            proof {
                reveal_strlit("console");
            }
            if str_eq(receiver.as_str(), "console") {
                String::from_str("GxcConsole_").concat(mc.method.as_str()).concat("(").concat(
                    joined.as_str(),
                ).concat(")")
            } else {
                receiver.concat(".").concat(mc.method.as_str()).concat("(").concat(joined.as_str()).concat(
                    ")",
                )
            }
        },
        Expr::FieldAccess(fa) => {
            let obj = expr_to_c(&fa.object);
            obj.concat(".").concat(fa.field.as_str())
        },
        Expr::Index(idx) => {
            let obj = expr_to_c(&idx.object);
            let index = expr_to_c(&idx.index);
            String::from_str("gxc_bounds_check(").concat(obj.as_str()).concat(", ").concat(
                index.as_str(),
            ).concat(")")
        },
        Expr::StructLiteral(sl) => {
            let joined = field_inits_text(&sl.fields);
            String::from_str("(Gxc_").concat(sl.name.as_str()).concat("){ ").concat(joined.as_str()).concat(
                " }",
            )
        },
        Expr::Concat(c) => {
            let left = expr_to_c(&c.left);
            let right = expr_to_c(&c.right);
            String::from_str("gxc_text_concat(").concat(left.as_str()).concat(", ").concat(
                right.as_str(),
            ).concat(")")
        },
        Expr::Path(p) => {
            let r = join_texts(&p.segments, "_");
            proof {
                assert(texts(p.segments@) =~= Seq::new(p.segments@.len(), |i: int| p.segments@[i]@));
            }
            r
        },
        Expr::SelfExpr(_) => String::from_str("self"),
        Expr::Propagate(p) => {
            let inner = expr_to_c(&p.inner);
            String::from_str("GXC_PROPAGATE(").concat(inner.as_str()).concat(")")
        },
        Expr::Range(r) => {
            let start = expr_to_c(&r.start);
            let end = expr_to_c(&r.end);
            String::from_str("gxc_range(").concat(start.as_str()).concat(", ").concat(end.as_str()).concat(
                ")",
            )
        },
        _ => String::from_str("/* unhandled expr */"),
    }
}

/// The C type of a variable initialised with `e`.
pub fn infer_c_type(e: &Expr) -> (r: String)
    ensures
        r@ == c_type_of_value(*e),
    decreases e,
{
    match e {
        Expr::Literal(lit) => match &lit.value {
            LiteralValue::Int(_) => String::from_str("int64_t"),
            LiteralValue::Float(_) => String::from_str("double"),
            LiteralValue::String(_) => String::from_str("GxcText"),
            LiteralValue::Char(_) => String::from_str("uint32_t"),
            LiteralValue::Bool(_) => String::from_str("bool"),
            LiteralValue::None_ => String::from_str("GxcOption"),
        },
        Expr::Binary(bin) => match bin.op {
            BinaryOp::Eq | BinaryOp::NotEq | BinaryOp::Lt | BinaryOp::Gt | BinaryOp::LtEq
            | BinaryOp::GtEq | BinaryOp::And | BinaryOp::Or => String::from_str("bool"),
            _ => infer_c_type(&bin.left),
        },
        Expr::Concat(_) => String::from_str("GxcText"),
        _ => String::from_str("int64_t"),
    }
}

/// The C condition under which `subject` matches `pattern`.
pub fn pattern_to_condition(subject: &str, pattern: &Pattern) -> (r: String)
    ensures
        r@ == c_condition(subject@, *pattern),
{
    match pattern {
        Pattern::Literal { value, .. } => {
            let lit = match value {
                LiteralValue::Int(n) => i64_to_text(*n),
                LiteralValue::Float(t) => float_text(t.as_str(), false),
                LiteralValue::Bool(b) => if *b {
                    String::from_str("true")
                } else {
                    String::from_str("false")
                },
                LiteralValue::String(s) => String::from_str("gxc_text_eq(").concat(subject).concat(
                    ", \"",
                ).concat(c_escaped(s.as_str()).as_str()).concat("\")"),
                LiteralValue::Char(c) => {
                    let ch = char_to_text(*c);
                    String::from_str("'").concat(ch.as_str()).concat("'")
                },
                LiteralValue::None_ => String::from_str("0"),
            };
            String::from_str(subject).concat(" == ").concat(lit.as_str())
        },
        Pattern::Variant { path, .. } => {
            let variant = if path.len() > 0 {
                path[path.len() - 1].clone()
            } else {
                String::new()
            };
            let upper = to_upper_text(variant.as_str());
            String::from_str(subject).concat(".tag == GXC_TAG_").concat(upper.as_str())
        },
        _ => String::from_str("1"),
    }
}

} // verus!
