//! Intermediate representation: a flattened program close to C semantics
//! that keeps GalaxC's type information, its lowering from the checked
//! syntax tree, and its human-readable listing.

pub mod float_text;
pub mod c_text;
pub mod lower;

pub use lower::lower;

use vstd::prelude::*;
use vstd::string::*;
use crate::text::{decimal, usize_to_text};
use crate::types::types::join;
use c_text::{texts, join_texts};

verus! {

broadcast use vstd::std_specs::vec::axiom_vec_index_decreases, vstd::string::group_string_axioms;

/// A complete IR program.
#[derive(Debug)]
pub struct IrProgram {
    pub module_name: Option<String>,
    pub structs: Vec<IrStruct>,
    pub enums: Vec<IrEnum>,
    pub functions: Vec<IrFunction>,
    pub constants: Vec<IrConst>,
    pub entry_point: Option<String>,
}

#[derive(Debug)]
pub struct IrStruct {
    pub name: String,
    pub fields: Vec<IrField>,
}

#[derive(Debug)]
pub struct IrField {
    pub name: String,
    pub c_type: String,
}

#[derive(Debug)]
pub struct IrEnum {
    pub name: String,
    pub variants: Vec<IrVariant>,
}

#[derive(Debug)]
pub struct IrVariant {
    pub name: String,
    pub tag: usize,
    pub fields: Vec<IrField>,
}

#[derive(Debug)]
pub struct IrFunction {
    pub name: String,
    pub params: Vec<IrParam>,
    pub return_type: String,
    pub body: Vec<IrStmt>,
    pub is_entry: bool,
}

#[derive(Debug)]
pub struct IrParam {
    pub name: String,
    pub c_type: String,
}

#[derive(Debug)]
pub struct IrConst {
    pub name: String,
    pub c_type: String,
    pub value: String,
}

/// IR statements, flattened from the syntax tree with explicit temporaries.
#[derive(Debug)]
pub enum IrStmt {
    VarDecl { name: String, c_type: String, init: Option<String> },
    Assign { target: String, value: String },
    Return { value: Option<String> },
    Expr { expr: String },
    If { condition: String, then_body: Vec<IrStmt>, else_body: Vec<IrStmt> },
    While { condition: String, body: Vec<IrStmt> },
    For { init: String, condition: String, update: String, body: Vec<IrStmt> },
    Block { body: Vec<IrStmt> },
    Break,
    Continue,
    Comment { text: String },
    Raw { code: String },
}

/// An IR statement as plain values.
pub enum IrStmtV {
    VarDecl { name: Seq<char>, c_type: Seq<char>, init: Option<Seq<char>> },
    Assign { target: Seq<char>, value: Seq<char> },
    Return { value: Option<Seq<char>> },
    Expr { expr: Seq<char> },
    If { condition: Seq<char>, then_body: Seq<IrStmtV>, else_body: Seq<IrStmtV> },
    While { condition: Seq<char>, body: Seq<IrStmtV> },
    For { init: Seq<char>, condition: Seq<char>, update: Seq<char>, body: Seq<IrStmtV> },
    Block { body: Seq<IrStmtV> },
    Break,
    Continue,
    Comment { text: Seq<char> },
    Raw { code: Seq<char> },
}

/// A text that may be absent, as a plain value.
pub open spec fn opt_text(t: Option<String>) -> Option<Seq<char>> {
    match t {
        Some(s) => Some(s@),
        None => None,
    }
}

/// An IR statement as plain values.
pub open spec fn stmt_v(s: IrStmt) -> IrStmtV
    decreases s, 0int,
{
    match s {
        IrStmt::VarDecl { name, c_type, init } => IrStmtV::VarDecl {
            name: name@,
            c_type: c_type@,
            init: opt_text(init),
        },
        IrStmt::Assign { target, value } => IrStmtV::Assign { target: target@, value: value@ },
        IrStmt::Return { value } => IrStmtV::Return { value: opt_text(value) },
        IrStmt::Expr { expr } => IrStmtV::Expr { expr: expr@ },
        IrStmt::If { condition, then_body, else_body } => IrStmtV::If {
            condition: condition@,
            then_body: stmts_v(then_body),
            else_body: stmts_v(else_body),
        },
        IrStmt::While { condition, body } => IrStmtV::While { condition: condition@, body: stmts_v(body) },
        IrStmt::For { init, condition, update, body } => IrStmtV::For {
            init: init@,
            condition: condition@,
            update: update@,
            body: stmts_v(body),
        },
        IrStmt::Block { body } => IrStmtV::Block { body: stmts_v(body) },
        IrStmt::Break => IrStmtV::Break,
        IrStmt::Continue => IrStmtV::Continue,
        IrStmt::Comment { text } => IrStmtV::Comment { text: text@ },
        IrStmt::Raw { code } => IrStmtV::Raw { code: code@ },
    }
}

/// A list of IR statements as plain values.
pub open spec fn stmts_v(v: Vec<IrStmt>) -> Seq<IrStmtV>
    decreases v, 1int,
{
    Seq::new(
        v@.len(),
        |i: int|
            if 0 <= i < v@.len() {
                stmt_v(v@[i])
            } else {
                IrStmtV::Break
            },
    )
}

/// An IR function as plain values; parameters and fields are name and C
/// type pairs.
pub struct IrFunctionV {
    pub name: Seq<char>,
    pub params: Seq<(Seq<char>, Seq<char>)>,
    pub return_type: Seq<char>,
    pub body: Seq<IrStmtV>,
    pub is_entry: bool,
}

/// An IR struct as plain values.
pub struct IrStructV {
    pub name: Seq<char>,
    pub fields: Seq<(Seq<char>, Seq<char>)>,
}

/// An IR enum variant as plain values.
pub struct IrVariantV {
    pub name: Seq<char>,
    pub tag: usize,
    pub fields: Seq<(Seq<char>, Seq<char>)>,
}

/// An IR enum as plain values.
pub struct IrEnumV {
    pub name: Seq<char>,
    pub variants: Seq<IrVariantV>,
}

/// An IR constant as plain values.
pub struct IrConstV {
    pub name: Seq<char>,
    pub c_type: Seq<char>,
    pub value: Seq<char>,
}

/// An IR program as plain values.
pub struct IrProgramV {
    pub module_name: Option<Seq<char>>,
    pub structs: Seq<IrStructV>,
    pub enums: Seq<IrEnumV>,
    pub functions: Seq<IrFunctionV>,
    pub constants: Seq<IrConstV>,
    pub entry_point: Option<Seq<char>>,
}

/// Fields as name and C type pairs.
pub open spec fn fields_v(fs: Seq<IrField>) -> Seq<(Seq<char>, Seq<char>)> {
    Seq::new(fs.len(), |i: int| (fs[i].name@, fs[i].c_type@))
}

pub open spec fn function_v(f: IrFunction) -> IrFunctionV {
    IrFunctionV {
        name: f.name@,
        params: Seq::new(f.params@.len(), |i: int| (f.params@[i].name@, f.params@[i].c_type@)),
        return_type: f.return_type@,
        body: stmts_v(f.body),
        is_entry: f.is_entry,
    }
}

pub open spec fn struct_v(s: IrStruct) -> IrStructV {
    IrStructV { name: s.name@, fields: fields_v(s.fields@) }
}

pub open spec fn variant_v(v: IrVariant) -> IrVariantV {
    IrVariantV { name: v.name@, tag: v.tag, fields: fields_v(v.fields@) }
}

pub open spec fn enum_v(e: IrEnum) -> IrEnumV {
    IrEnumV { name: e.name@, variants: Seq::new(e.variants@.len(), |i: int| variant_v(e.variants@[i])) }
}

pub open spec fn const_v(c: IrConst) -> IrConstV {
    IrConstV { name: c.name@, c_type: c.c_type@, value: c.value@ }
}

/// An IR program as plain values.
pub open spec fn program_v(p: IrProgram) -> IrProgramV {
    IrProgramV {
        module_name: opt_text(p.module_name),
        structs: Seq::new(p.structs@.len(), |i: int| struct_v(p.structs@[i])),
        enums: Seq::new(p.enums@.len(), |i: int| enum_v(p.enums@[i])),
        functions: Seq::new(p.functions@.len(), |i: int| function_v(p.functions@[i])),
        constants: Seq::new(p.constants@.len(), |i: int| const_v(p.constants@[i])),
        entry_point: opt_text(p.entry_point),
    }
}

/// The listing of a statement, each line led by `pad`; nested statements
/// are indented by two more spaces.
pub open spec fn show_stmt(s: IrStmt, pad: Seq<char>) -> Seq<char>
    decreases s, 0int,
{
    let inner = pad + "  "@;
    match s {
        IrStmt::VarDecl { name, c_type, init } => match init {
            Some(i) => pad + c_type@ + " "@ + name@ + " = "@ + i@ + ";\n"@,
            None => pad + c_type@ + " "@ + name@ + ";\n"@,
        },
        IrStmt::Assign { target, value } => pad + target@ + " = "@ + value@ + ";\n"@,
        IrStmt::Return { value } => match value {
            Some(v) => pad + "return "@ + v@ + ";\n"@,
            None => pad + "return;\n"@,
        },
        IrStmt::Expr { expr } => pad + expr@ + ";\n"@,
        IrStmt::If { condition, then_body, else_body } => {
            let else_part = if else_body@.len() > 0 {
                pad + "} else {\n"@ + show_stmts(else_body, else_body@.len() as int, inner)
            } else {
                Seq::empty()
            };
            pad + "if ("@ + condition@ + ") {\n"@ + show_stmts(then_body, then_body@.len() as int, inner)
                + else_part + pad + "}\n"@
        },
        IrStmt::While { condition, body } => pad + "while ("@ + condition@ + ") {\n"@ + show_stmts(
            body,
            body@.len() as int,
            inner,
        ) + pad + "}\n"@,
        IrStmt::For { init, condition, update, body } => pad + "for ("@ + init@ + "; "@ + condition@
            + "; "@ + update@ + ") {\n"@ + show_stmts(body, body@.len() as int, inner) + pad + "}\n"@,
        IrStmt::Block { body } => pad + "{\n"@ + show_stmts(body, body@.len() as int, inner) + pad
            + "}\n"@,
        IrStmt::Break => pad + "break;\n"@,
        IrStmt::Continue => pad + "continue;\n"@,
        IrStmt::Comment { text } => pad + "// "@ + text@ + "\n"@,
        IrStmt::Raw { code } => pad + code@ + "\n"@,
    }
}

/// The listings of the first `n` statements of `v`, in order.
pub open spec fn show_stmts(v: Vec<IrStmt>, n: int, pad: Seq<char>) -> Seq<char>
    decreases v, n,
{
    if n <= 0 || n > v@.len() {
        Seq::empty()
    } else {
        show_stmts(v, n - 1, pad) + show_stmt(v@[n - 1], pad)
    }
}

/// The texts `f(v[0]) + ... + f(v[n - 1])`.
pub open spec fn concat_first<T>(v: Seq<T>, n: int, f: spec_fn(T) -> Seq<char>) -> Seq<char>
    decreases n,
{
    if n <= 0 || n > v.len() {
        Seq::empty()
    } else {
        concat_first(v, n - 1, f) + f(v[n - 1])
    }
}

/// A field line of a struct listing.
pub open spec fn show_field(f: IrField) -> Seq<char> {
    "  "@ + f.name@ + ": "@ + f.c_type@ + "\n"@
}

/// A field of an enum variant's listing.
pub open spec fn show_variant_field(f: IrField) -> Seq<char> {
    f.name@ + ": "@ + f.c_type@ + ", "@
}

pub open spec fn show_struct(s: IrStruct) -> Seq<char> {
    "struct "@ + s.name@ + " {\n"@ + concat_first(s.fields@, s.fields@.len() as int, |f: IrField| show_field(f))
        + "}\n\n"@
}

pub open spec fn show_variant(v: IrVariant) -> Seq<char> {
    let fields = if v.fields@.len() > 0 {
        "{ "@ + concat_first(v.fields@, v.fields@.len() as int, |f: IrField| show_variant_field(f)) + "}"@
    } else {
        Seq::empty()
    };
    "  "@ + v.name@ + "(tag="@ + decimal(v.tag as nat) + ") "@ + fields + "\n"@
}

pub open spec fn show_enum(e: IrEnum) -> Seq<char> {
    "enum "@ + e.name@ + " {\n"@ + concat_first(e.variants@, e.variants@.len() as int, |v: IrVariant| show_variant(v))
        + "}\n\n"@
}

/// `name: type` for each parameter.
pub open spec fn param_texts(ps: Seq<IrParam>) -> Seq<Seq<char>> {
    Seq::new(ps.len(), |i: int| ps[i].name@ + ": "@ + ps[i].c_type@)
}

pub open spec fn show_function(f: IrFunction) -> Seq<char> {
    "fn "@ + f.name@ + "("@ + join(param_texts(f.params@), ", "@) + ") -> "@ + f.return_type@ + " {\n"@
        + show_stmts(f.body, f.body@.len() as int, "  "@) + "}\n\n"@
}

/// The human-readable listing of an IR program: its module, then its
/// structs, enums and functions.
pub open spec fn show_program(p: IrProgram) -> Seq<char> {
    let head = match p.module_name {
        Some(n) => "module "@ + n@ + "\n\n"@,
        None => Seq::empty(),
    };
    head + concat_first(p.structs@, p.structs@.len() as int, |s: IrStruct| show_struct(s))
        + concat_first(p.enums@, p.enums@.len() as int, |e: IrEnum| show_enum(e))
        + concat_first(p.functions@, p.functions@.len() as int, |f: IrFunction| show_function(f))
}

/// Format an IR program as a human-readable listing.
pub fn display(program: &IrProgram) -> (s: String)
    ensures
        s@ == show_program(*program),
{
    let mut out = String::new();
    if let Some(name) = &program.module_name {
        out.append("module ");
        out.append(name.as_str());
        out.append("\n\n");
    }
    let ghost head = out@;
    let mut i: usize = 0;
    while i < program.structs.len()
        invariant
            i <= program.structs@.len(),
            out@ == head + concat_first(program.structs@, i as int, |s: IrStruct| show_struct(s)),
        decreases program.structs@.len() - i,
    {
        let s = &program.structs[i];
        out.append("struct ");
        out.append(s.name.as_str());
        out.append(" {\n");
        let ghost before_fields = out@;
        let mut j: usize = 0;
        while j < s.fields.len()
            invariant
                j <= s.fields@.len(),
                out@ == before_fields + concat_first(s.fields@, j as int, |f: IrField| show_field(f)),
            decreases s.fields@.len() - j,
        {
            out.append("  ");
            out.append(s.fields[j].name.as_str());
            out.append(": ");
            out.append(s.fields[j].c_type.as_str());
            out.append("\n");
            j = j + 1;
        }
        out.append("}\n\n");
        i = i + 1;
    }
    let ghost after_structs = out@;
    let mut i: usize = 0;
    while i < program.enums.len()
        invariant
            i <= program.enums@.len(),
            out@ == after_structs + concat_first(program.enums@, i as int, |e: IrEnum| show_enum(e)),
        decreases program.enums@.len() - i,
    {
        let e = &program.enums[i];
        out.append("enum ");
        out.append(e.name.as_str());
        out.append(" {\n");
        let ghost before_variants = out@;
        let mut j: usize = 0;
        while j < e.variants.len()
            invariant
                j <= e.variants@.len(),
                out@ == before_variants + concat_first(e.variants@, j as int, |v: IrVariant| show_variant(v)),
            decreases e.variants@.len() - j,
        {
            display_variant(&mut out, &e.variants[j]);
            j = j + 1;
        }
        out.append("}\n\n");
        i = i + 1;
    }
    let ghost after_enums = out@;
    let mut i: usize = 0;
    while i < program.functions.len()
        invariant
            i <= program.functions@.len(),
            out@ == after_enums + concat_first(program.functions@, i as int, |f: IrFunction| show_function(f)),
        decreases program.functions@.len() - i,
    {
        let f = &program.functions[i];
        let mut params: Vec<String> = Vec::new();
        let mut j: usize = 0;
        while j < f.params.len()
            invariant
                j <= f.params@.len(),
                params@.len() == j,
                forall|k: int| 0 <= k < j ==> (#[trigger] params@[k])@ == f.params@[k].name@ + ": "@ + f.params@[k].c_type@,
            decreases f.params@.len() - j,
        {
            params.push(f.params[j].name.clone().concat(": ").concat(f.params[j].c_type.as_str()));
            j = j + 1;
        }
        let joined = join_texts(&params, ", ");
        assert(texts(params@) =~= param_texts(f.params@));
        out.append("fn ");
        out.append(f.name.as_str());
        out.append("(");
        out.append(joined.as_str());
        out.append(") -> ");
        out.append(f.return_type.as_str());
        out.append(" {\n");
        display_stmts(&mut out, &f.body, "  ");
        out.append("}\n\n");
        i = i + 1;
    }
    out
}

/// Append the listing line of an enum variant.
fn display_variant(out: &mut String, v: &IrVariant)
    ensures
        final(out)@ == old(out)@ + show_variant(*v),
{
    out.append("  ");
    out.append(v.name.as_str());
    out.append("(tag=");
    out.append(usize_to_text(v.tag).as_str());
    out.append(") ");
    if v.fields.len() > 0 {
        out.append("{ ");
        let ghost before_fields = out@;
        let mut k: usize = 0;
        while k < v.fields.len()
            invariant
                k <= v.fields@.len(),
                out@ == before_fields + concat_first(v.fields@, k as int, |f: IrField| show_variant_field(f)),
            decreases v.fields@.len() - k,
        {
            out.append(v.fields[k].name.as_str());
            out.append(": ");
            out.append(v.fields[k].c_type.as_str());
            out.append(", ");
            k = k + 1;
        }
        out.append("}");
    }
    out.append("\n");
}

/// Append the listing of the statements `v`, each line led by `pad`.
fn display_stmts(out: &mut String, v: &Vec<IrStmt>, pad: &str)
    ensures
        final(out)@ == old(out)@ + show_stmts(*v, v@.len() as int, pad@),
    decreases v, v@.len() + 1,
{
    let mut i: usize = 0;
    while i < v.len()
        invariant
            i <= v@.len(),
            out@ == old(out)@ + show_stmts(*v, i as int, pad@),
        decreases v@.len() - i,
    {
        display_stmt(out, &v[i], pad);
        i = i + 1;
    }
}

/// Append the listing of one statement, each line led by `pad`.
fn display_stmt(out: &mut String, stmt: &IrStmt, pad: &str)
    ensures
        final(out)@ == old(out)@ + show_stmt(*stmt, pad@),
    decreases stmt, 0int,
{
    let inner = String::from_str(pad).concat("  ");
    match stmt {
        IrStmt::VarDecl { name, c_type, init } => {
            out.append(pad);
            out.append(c_type.as_str());
            out.append(" ");
            out.append(name.as_str());
            if let Some(i) = init {
                out.append(" = ");
                out.append(i.as_str());
            }
            out.append(";\n");
        },
        IrStmt::Assign { target, value } => {
            out.append(pad);
            out.append(target.as_str());
            out.append(" = ");
            out.append(value.as_str());
            out.append(";\n");
        },
        IrStmt::Return { value } => {
            out.append(pad);
            if let Some(v) = value {
                out.append("return ");
                out.append(v.as_str());
                out.append(";\n");
            } else {
                out.append("return;\n");
            }
        },
        IrStmt::Expr { expr } => {
            out.append(pad);
            out.append(expr.as_str());
            out.append(";\n");
        },
        IrStmt::If { condition, then_body, else_body } => {
            out.append(pad);
            out.append("if (");
            out.append(condition.as_str());
            out.append(") {\n");
            display_stmts(out, then_body, inner.as_str());
            if else_body.len() > 0 {
                out.append(pad);
                out.append("} else {\n");
                display_stmts(out, else_body, inner.as_str());
            }
            out.append(pad);
            out.append("}\n");
        },
        IrStmt::While { condition, body } => {
            out.append(pad);
            out.append("while (");
            out.append(condition.as_str());
            out.append(") {\n");
            display_stmts(out, body, inner.as_str());
            out.append(pad);
            out.append("}\n");
        },
        IrStmt::For { init, condition, update, body } => {
            out.append(pad);
            out.append("for (");
            out.append(init.as_str());
            out.append("; ");
            out.append(condition.as_str());
            out.append("; ");
            out.append(update.as_str());
            out.append(") {\n");
            display_stmts(out, body, inner.as_str());
            out.append(pad);
            out.append("}\n");
        },
        IrStmt::Block { body } => {
            out.append(pad);
            out.append("{\n");
            display_stmts(out, body, inner.as_str());
            out.append(pad);
            out.append("}\n");
        },
        IrStmt::Break => {
            out.append(pad);
            out.append("break;\n");
        },
        IrStmt::Continue => {
            out.append(pad);
            out.append("continue;\n");
        },
        IrStmt::Comment { text } => {
            out.append(pad);
            out.append("// ");
            out.append(text.as_str());
            out.append("\n");
        },
        IrStmt::Raw { code } => {
            out.append(pad);
            out.append(code.as_str());
            out.append("\n");
        },
    }
}

} // verus!
