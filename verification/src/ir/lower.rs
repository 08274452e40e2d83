//! Lowering of the checked syntax tree into the IR.

use vstd::prelude::*;
use vstd::string::*;
use crate::ast::{
    Program, Item, StructDecl, EnumDecl, FieldDecl, OpDecl, ConstDecl, Block, Stmt, AssignOp,
    MatchArm, MatchArmBody, TypeExpr, Expr, IfStmt,
};
use crate::text::{decimal, usize_to_text, str_eq};
use super::{
    IrProgram, IrStruct, IrField, IrEnum, IrVariant, IrFunction, IrParam, IrConst, IrStmt, IrStmtV,
    stmts_v, stmt_v, IrFunctionV, IrStructV, IrVariantV, IrEnumV, IrConstV, IrProgramV, program_v,
    function_v, struct_v, enum_v, const_v, fields_v,
};
use super::c_text::{
    c_of_type_expr, c_of_expr, c_type_of_value, c_condition, type_expr_to_c, expr_to_c,
    infer_c_type, pattern_to_condition, join_texts, texts,
};
use crate::types::types::join;

verus! {

broadcast use vstd::std_specs::vec::axiom_vec_index_decreases, vstd::string::group_string_axioms;

/// The lowering state: the number of temporaries handed out so far.
struct IrLowerer {
    temp_counter: usize,
}

/// The C text of an assignment operator.
pub open spec fn assign_op_text(op: AssignOp) -> Seq<char> {
    match op {
        AssignOp::Assign => "="@,
        AssignOp::AddAssign => "+="@,
        AssignOp::SubAssign => "-="@,
        AssignOp::MulAssign => "*="@,
        AssignOp::DivAssign => "/="@,
        AssignOp::ModAssign => "%="@,
    }
}

/// The name of the temporary numbered `n`.
pub open spec fn temp_name(n: usize) -> Seq<char> {
    "_t"@ + decimal(n as nat)
}

/// The IR fields of a list of field declarations, with their C types.
pub open spec fn fields_lowered(fields: Seq<FieldDecl>, out: Seq<IrField>) -> bool {
    &&& out.len() == fields.len()
    &&& forall|i: int|
        0 <= i < fields.len() ==> {
            &&& (#[trigger] out[i]).name@ == fields[i].name@
            &&& out[i].c_type@ == c_of_type_expr(fields[i].type_expr)
        }
}

/// The module name of the IR: the segments of the module path joined with `_`.
pub open spec fn module_name_of(program: Program) -> Option<Seq<char>> {
    match program.module_decl {
        Some(m) => Some(join(Seq::new(m.path.segments@.len(), |i: int| m.path.segments@[i]@), "_"@)),
        None => None,
    }
}

/// The temporary counter after handing out one temporary.
pub open spec fn next_temp(n: usize) -> usize {
    n.wrapping_add(1)
}

/// The C type of a declared variable: its declared type, or the type of
/// its initial value.
pub open spec fn declared_c_type(t: Option<TypeExpr>, value: Expr) -> Seq<char> {
    match t {
        Some(t) => c_of_type_expr(t),
        None => c_type_of_value(value),
    }
}

/// The IR of a statement, lowered with the temporary counter at `n`, and
/// the counter after it. Variables become declarations; assignments,
/// expressions and returns keep their C text; `if` keeps its condition
/// and its block, and each `else if` branch becomes an `if` nested in the
/// `else` of the one before, the final `else` block innermost (see
/// `lowered_else`); `while` and `loop` become `while` loops; a `for` loop becomes
/// a comment, an index temporary starting at 0, and a `while` over the
/// iterable's length whose body binds the element name to the index, runs
/// the loop body and steps the index; a `match` stores its subject in a
/// temporary and tests the arms in a chain of `if` / `else`; a `select`
/// becomes a comment; a nested item is dropped.
pub open spec fn lowered_stmt(stmt: Stmt, n: usize) -> (Seq<IrStmtV>, usize)
    decreases stmt, 0int,
{
    match stmt {
        Stmt::Let(s) => (
            seq![
                IrStmtV::VarDecl {
                    name: s.name@,
                    c_type: declared_c_type(s.type_expr, s.value),
                    init: Some(c_of_expr(s.value)),
                },
            ],
            n,
        ),
        Stmt::Var(s) => (
            seq![
                IrStmtV::VarDecl {
                    name: s.name@,
                    c_type: declared_c_type(s.type_expr, s.value),
                    init: Some(c_of_expr(s.value)),
                },
            ],
            n,
        ),
        Stmt::Assign(s) => (
            seq![
                IrStmtV::Assign {
                    target: c_of_expr(s.target),
                    value: assign_op_text(s.op) + " "@ + c_of_expr(s.value),
                },
            ],
            n,
        ),
        Stmt::Expr(s) => (seq![IrStmtV::Expr { expr: c_of_expr(s.expr) }], n),
        Stmt::If(s) => {
            let (then_body, n1) = lowered_block(s.then_block, n);
            let (else_body, n2) = lowered_else(s, 0, n1);
            (seq![IrStmtV::If { condition: c_of_expr(s.condition), then_body, else_body }], n2)
        },
        Stmt::While(s) => {
            let (body, n1) = lowered_block(s.body, n);
            (seq![IrStmtV::While { condition: c_of_expr(s.condition), body }], n1)
        },
        Stmt::Loop(s) => {
            let (body, n1) = lowered_block(s.body, n);
            (seq![IrStmtV::While { condition: "1"@, body }], n1)
        },
        Stmt::For(s) => {
            let (body, n1) = lowered_block(s.body, n);
            let idx = temp_name(n1);
            let loop_body = seq![
                IrStmtV::VarDecl { name: s.binding@, c_type: "int64_t"@, init: Some(idx) },
            ] + body + seq![IrStmtV::Assign { target: idx, value: "= "@ + idx + " + 1"@ }];
            (
                seq![
                    IrStmtV::Comment { text: "for "@ + s.binding@ + " in ..."@ },
                    IrStmtV::VarDecl { name: idx, c_type: "int64_t"@, init: Some("0"@) },
                    IrStmtV::While {
                        condition: idx + " < gxc_len("@ + c_of_expr(s.iterable) + ")"@,
                        body: loop_body,
                    },
                ],
                next_temp(n1),
            )
        },
        Stmt::Return(s) => (
            seq![
                IrStmtV::Return {
                    value: match s.value {
                        Some(v) => Some(c_of_expr(v)),
                        None => None,
                    },
                },
            ],
            n,
        ),
        Stmt::Break(_) => (seq![IrStmtV::Break], n),
        Stmt::Continue(_) => (seq![IrStmtV::Continue], n),
        Stmt::Match(s) => {
            let temp = temp_name(n);
            let head = seq![
                IrStmtV::VarDecl { name: temp, c_type: "int64_t"@, init: Some(c_of_expr(s.subject)) },
            ];
            let (chain, n1) = lowered_arms(temp, s.arms, 0, next_temp(n));
            (head + chain, n1)
        },
        Stmt::Select(_) => (
            seq![IrStmtV::Comment { text: "select statement (tasking runtime required)"@ }],
            n,
        ),
        Stmt::Item(_) => (Seq::empty(), n),
    }
}

/// The IR of what follows the `else` of an `if` statement from its
/// `else if` branch `from` on: that branch as an `if` of its own, with the
/// rest of the chain in its `else`; past the last branch, the final `else`
/// block, or nothing.
pub open spec fn lowered_else(s: IfStmt, from: int, n: usize) -> (Seq<IrStmtV>, usize)
    decreases s, 0int, s.else_ifs@.len() - from,
{
    if from < 0 || from >= s.else_ifs@.len() {
        match s.else_block {
            Some(b) => lowered_block(b, n),
            None => (Seq::empty(), n),
        }
    } else {
        let (body, n1) = lowered_block(s.else_ifs@[from].1, n);
        let (rest, n2) = lowered_else(s, from + 1, n1);
        (seq![IrStmtV::If { condition: c_of_expr(s.else_ifs@[from].0), then_body: body, else_body: rest }], n2)
    }
}

/// The IR of a block's statements, lowered in order with the counter
/// threaded through, and the counter after them.
pub open spec fn lowered_block(b: Block, n: usize) -> (Seq<IrStmtV>, usize)
    decreases b, 2int,
{
    lowered_stmts(b.stmts, b.stmts@.len() as int, n)
}

/// The IR of the first `k` statements of `v`, and the counter after them.
pub open spec fn lowered_stmts(v: Vec<Stmt>, k: int, n: usize) -> (Seq<IrStmtV>, usize)
    decreases v, 1int, k,
{
    if k <= 0 || k > v@.len() {
        (Seq::empty(), n)
    } else {
        let (a, n1) = lowered_stmts(v, k - 1, n);
        let (b, n2) = lowered_stmt(v@[k - 1], n1);
        (a + b, n2)
    }
}

/// The IR of the match arms from `from` on, testing `subject`: an `if` on
/// the first arm's pattern, its body, and the rest of the chain in its
/// `else`; nothing when no arm is left.
pub open spec fn lowered_arms(subject: Seq<char>, arms: Vec<MatchArm>, from: int, n: usize) -> (
    Seq<IrStmtV>,
    usize,
)
    decreases arms, 0int, arms@.len() - from,
{
    if from < 0 || from >= arms@.len() {
        (Seq::empty(), n)
    } else {
        let arm = arms@[from];
        let (body, n1) = match arm.body {
            MatchArmBody::Block(b) => lowered_block(b, n),
            MatchArmBody::Expr(e) => (seq![IrStmtV::Expr { expr: c_of_expr(e) }], n),
        };
        let (rest, n2) = lowered_arms(subject, arms, from + 1, n1);
        (seq![IrStmtV::If { condition: c_condition(subject, arm.pattern), then_body: body, else_body: rest }], n2)
    }
}

/// Field declarations as name and C type pairs.
pub open spec fn decl_fields(fs: Seq<FieldDecl>) -> Seq<(Seq<char>, Seq<char>)> {
    Seq::new(fs.len(), |i: int| (fs[i].name@, c_of_type_expr(fs[i].type_expr)))
}

/// The IR of a struct declaration.
pub open spec fn lowered_struct(d: StructDecl) -> IrStructV {
    IrStructV { name: d.name@, fields: decl_fields(d.fields@) }
}

/// The IR of an enum declaration: each variant tagged with its position.
pub open spec fn lowered_enum(d: EnumDecl) -> IrEnumV {
    IrEnumV {
        name: d.name@,
        variants: Seq::new(
            d.variants@.len(),
            |i: int|
                IrVariantV {
                    name: d.variants@[i].name@,
                    tag: i as usize,
                    fields: decl_fields(d.variants@[i].fields@),
                },
        ),
    }
}

/// The IR of a constant; an undeclared type is `int64_t`.
pub open spec fn lowered_const(d: ConstDecl) -> IrConstV {
    IrConstV {
        name: d.name@,
        c_type: match d.type_expr {
            Some(t) => c_of_type_expr(t),
            None => "int64_t"@,
        },
        value: c_of_expr(d.value),
    }
}

/// The IR of a function declaration, lowered with the counter at `n`, and
/// the counter after it; a function without a body gets an empty one, and
/// the function named `launch` is the entry.
pub open spec fn lowered_function(d: OpDecl, n: usize) -> (IrFunctionV, usize) {
    let (body, n1) = match d.body {
        Some(b) => lowered_block(b, n),
        None => (Seq::empty(), n),
    };
    (
        IrFunctionV {
            name: d.name@,
            params: Seq::new(
                d.params@.len(),
                |i: int| (d.params@[i].name@, c_of_type_expr(d.params@[i].type_expr)),
            ),
            return_type: match d.return_type {
                Some(t) => c_of_type_expr(t),
                None => "void"@,
            },
            body,
            is_entry: d.name@ == "launch"@,
        },
        n1,
    )
}

/// The IR of the first `k` methods of an impl block for `target`: each
/// function is named after the type, `Target_method`.
pub open spec fn lowered_methods(target: Seq<char>, ms: Seq<OpDecl>, k: int, n: usize) -> (
    Seq<IrFunctionV>,
    usize,
)
    decreases k,
{
    if k <= 0 || k > ms.len() {
        (Seq::empty(), n)
    } else {
        let (a, n1) = lowered_methods(target, ms, k - 1, n);
        let (f, n2) = lowered_function(ms[k - 1], n1);
        (
            a.push(
                IrFunctionV {
                    name: target + "_"@ + f.name,
                    params: f.params,
                    return_type: f.return_type,
                    body: f.body,
                    is_entry: f.is_entry,
                },
            ),
            n2,
        )
    }
}

/// The IR functions of the first `k` items: the functions, and the methods
/// of impl blocks, in order.
pub open spec fn lowered_functions(items: Seq<Item>, k: int, n: usize) -> (Seq<IrFunctionV>, usize)
    decreases k,
{
    if k <= 0 || k > items.len() {
        (Seq::empty(), n)
    } else {
        let (a, n1) = lowered_functions(items, k - 1, n);
        match items[k - 1] {
            Item::Op(f) => {
                let (fv, n2) = lowered_function(f, n1);
                (a.push(fv), n2)
            },
            Item::ImplBlock(b) => {
                let (ms, n2) = lowered_methods(b.target@, b.methods@, b.methods@.len() as int, n1);
                (a + ms, n2)
            },
            _ => (a, n1),
        }
    }
}

/// The IR structs of the first `k` items.
pub open spec fn lowered_structs(items: Seq<Item>, k: int) -> Seq<IrStructV>
    decreases k,
{
    if k <= 0 || k > items.len() {
        Seq::empty()
    } else {
        match items[k - 1] {
            Item::Struct(d) => lowered_structs(items, k - 1).push(lowered_struct(d)),
            _ => lowered_structs(items, k - 1),
        }
    }
}

/// The IR enums of the first `k` items.
pub open spec fn lowered_enums(items: Seq<Item>, k: int) -> Seq<IrEnumV>
    decreases k,
{
    if k <= 0 || k > items.len() {
        Seq::empty()
    } else {
        match items[k - 1] {
            Item::Enum(d) => lowered_enums(items, k - 1).push(lowered_enum(d)),
            _ => lowered_enums(items, k - 1),
        }
    }
}

/// The IR constants of the first `k` items.
pub open spec fn lowered_consts(items: Seq<Item>, k: int) -> Seq<IrConstV>
    decreases k,
{
    if k <= 0 || k > items.len() {
        Seq::empty()
    } else {
        match items[k - 1] {
            Item::Constant(d) => lowered_consts(items, k - 1).push(lowered_const(d)),
            _ => lowered_consts(items, k - 1),
        }
    }
}

/// The IR of a program, its temporaries numbered from `n`: the module name,
/// the structs, enums, functions and constants in the order of their
/// declarations, and `launch` as the entry point when a function of that
/// name is among the functions.
pub open spec fn lowered_program(program: Program, n: usize) -> IrProgramV {
    let items = program.items@;
    let functions = lowered_functions(items, items.len() as int, n).0;
    IrProgramV {
        module_name: module_name_of(program),
        structs: lowered_structs(items, items.len() as int),
        enums: lowered_enums(items, items.len() as int),
        functions,
        constants: lowered_consts(items, items.len() as int),
        entry_point: if exists|i: int| 0 <= i < functions.len() && (#[trigger] functions[i]).name == "launch"@ {
            Some("launch"@)
        } else {
            None
        },
    }
}

/// Lower a type-checked program into IR.
pub fn lower(program: &Program) -> (p: IrProgram)
    ensures
        program_v(p) == lowered_program(*program, 0),
{
    let mut lowerer = IrLowerer { temp_counter: 0 };
    lowerer.lower_program(program)
}

/// The fields of a list of declarations, with their C types.
fn lower_fields(fields: &Vec<FieldDecl>) -> (r: Vec<IrField>)
    ensures
        fields_lowered(fields@, r@),
{
    let mut out: Vec<IrField> = Vec::new();
    let mut i: usize = 0;
    while i < fields.len()
        invariant
            i <= fields@.len(),
            fields_lowered(fields@.subrange(0, i as int), out@),
        decreases fields@.len() - i,
    {
        out.push(IrField { name: fields[i].name.clone(), c_type: type_expr_to_c(&fields[i].type_expr) });
        i = i + 1;
        assert(fields_lowered(fields@.subrange(0, i as int), out@)) by {
            assert forall|j: int| 0 <= j < i implies {
                &&& (#[trigger] out@[j]).name@ == fields@.subrange(0, i as int)[j].name@
                &&& out@[j].c_type@ == c_of_type_expr(fields@.subrange(0, i as int)[j].type_expr)
            } by {
                if j < i - 1 {
                    assert(fields@.subrange(0, i - 1)[j] == fields@[j]);
                }
            }
        }
    }
    assert(fields@.subrange(0, fields@.len() as int) =~= fields@);
    out
}

impl IrLowerer {
    /// A new temporary's name.
    fn fresh_temp(&mut self) -> (name: String)
        ensures
            name@ == temp_name(old(self).temp_counter),
            final(self).temp_counter == old(self).temp_counter.wrapping_add(1),
    {
        let name = String::from_str("_t").concat(usize_to_text(self.temp_counter).as_str());
        self.temp_counter = self.temp_counter.wrapping_add(1);
        name
    }

    fn lower_program(&mut self, program: &Program) -> (p: IrProgram)
        ensures
            program_v(p) == lowered_program(*program, old(self).temp_counter),
    {
        let module_name = match &program.module_decl {
            Some(m) => {
                let r = join_texts(&m.path.segments, "_");
                assert(texts(m.path.segments@) =~= Seq::new(
                    m.path.segments@.len(),
                    |i: int| m.path.segments@[i]@,
                ));
                Some(r)
            },
            None => None,
        };
        let mut structs: Vec<IrStruct> = Vec::new();
        let mut enums: Vec<IrEnum> = Vec::new();
        let mut functions: Vec<IrFunction> = Vec::new();
        let mut constants: Vec<IrConst> = Vec::new();
        proof {
            reveal_strlit("launch");
            reveal_strlit("_");
        }
        let ghost items = program.items@;
        let ghost n0 = self.temp_counter;
        assert(structs_vs(structs@) =~= Seq::empty());
        assert(enums_vs(enums@) =~= Seq::empty());
        assert(functions_vs(functions@) =~= Seq::empty());
        assert(consts_vs(constants@) =~= Seq::empty());
        let mut i: usize = 0;
        while i < program.items.len()
            invariant
                items == program.items@,
                i <= items.len(),
                structs_vs(structs@) == lowered_structs(items, i as int),
                enums_vs(enums@) == lowered_enums(items, i as int),
                consts_vs(constants@) == lowered_consts(items, i as int),
                (functions_vs(functions@), self.temp_counter) == lowered_functions(items, i as int, n0),
            decreases program.items@.len() - i,
        {
            match &program.items[i] {
                Item::Struct(s) => {
                    let ghost before = structs@;
                    let st = lower_struct(s);
                    structs.push(st);
                    assert(structs_vs(structs@) =~= structs_vs(before).push(struct_v(st)));
                },
                Item::Enum(e) => {
                    let ghost before = enums@;
                    let en = lower_enum(e);
                    enums.push(en);
                    assert(enums_vs(enums@) =~= enums_vs(before).push(enum_v(en)));
                },
                Item::Op(f) => {
                    let ghost before = functions@;
                    let fv = self.lower_function(f);
                    functions.push(fv);
                    assert(functions_vs(functions@) =~= functions_vs(before).push(function_v(fv)));
                },
                Item::Constant(c) => {
                    let ghost before = constants@;
                    let cv = lower_const(c);
                    constants.push(cv);
                    assert(consts_vs(constants@) =~= consts_vs(before).push(const_v(cv)));
                },
                Item::ImplBlock(block) => {
                    let ghost fbefore = functions_vs(functions@);
                    let ghost nb = self.temp_counter;
                    let mut j: usize = 0;
                    assert(fbefore + Seq::<IrFunctionV>::empty() =~= fbefore);
                    while j < block.methods.len()
                        invariant
                            items == program.items@,
                            i < items.len(),
                            items[i as int] == Item::ImplBlock(*block),
                            j <= block.methods@.len(),
                            structs_vs(structs@) == lowered_structs(items, i as int),
                            enums_vs(enums@) == lowered_enums(items, i as int),
                            consts_vs(constants@) == lowered_consts(items, i as int),
                            (fbefore, nb) == lowered_functions(items, i as int, n0),
                            functions_vs(functions@) == fbefore + lowered_methods(
                                block.target@,
                                block.methods@,
                                j as int,
                                nb,
                            ).0,
                            self.temp_counter == lowered_methods(block.target@, block.methods@, j as int, nb).1,
                        decreases block.methods@.len() - j,
                    {
                        let ghost before = functions@;
                        let mut ir_func = self.lower_function(&block.methods[j]);
                        // methods are named after their type
                        ir_func.name = block.target.clone().concat("_").concat(ir_func.name.as_str());
                        functions.push(ir_func);
                        assert(functions_vs(functions@) =~= functions_vs(before).push(
                            function_v(functions@.last()),
                        ));
                        j = j + 1;
                    }
                },
                _ => {},
            }
            i = i + 1;
        }
        // the entry point
        let launch = has_launch(&functions);
        let entry_point = if launch {
            Some(String::from_str("launch"))
        } else {
            None
        };
        let ghost fs = functions@;
        let p = IrProgram { module_name, structs, enums, functions, constants, entry_point };
        assert(p.functions@ == fs);
        proof {
            let fv = functions_vs(fs);
            if launch {
                let k = choose|k: int| 0 <= k < fs.len() && (#[trigger] fs[k]).name@ == "launch"@;
                assert(fv[k].name == "launch"@);
            } else {
                assert forall|k: int| 0 <= k < fv.len() implies (#[trigger] fv[k]).name != "launch"@ by {
                    assert(fs[k].name@ != "launch"@);
                }
            }
        }
        assert(program_v(p).structs =~= structs_vs(p.structs@));
        assert(program_v(p).enums =~= enums_vs(p.enums@));
        assert(program_v(p).functions =~= functions_vs(p.functions@));
        assert(program_v(p).constants =~= consts_vs(p.constants@));
        p
    }

    /// Lower a function declaration; a function without a body gets an
    /// empty one.
    fn lower_function(&mut self, decl: &OpDecl) -> (f: IrFunction)
        ensures
            f.name@ == decl.name@,
            f.params@.len() == decl.params@.len(),
            forall|i: int| 0 <= i < decl.params@.len() ==> {
                &&& (#[trigger] f.params@[i]).name@ == decl.params@[i].name@
                &&& f.params@[i].c_type@ == c_of_type_expr(decl.params@[i].type_expr)
            },
            f.return_type@ == (match decl.return_type {
                Some(t) => c_of_type_expr(t),
                None => "void"@,
            }),
            decl.body is None ==> f.body@.len() == 0,
            f.is_entry == (decl.name@ == "launch"@),
            (function_v(f), final(self).temp_counter) == lowered_function(*decl, old(self).temp_counter),
        decreases decl, 1int,
    {
        let mut params: Vec<IrParam> = Vec::new();
        let mut i: usize = 0;
        while i < decl.params.len()
            invariant
                i <= decl.params@.len(),
                params@.len() == i,
                forall|j: int| 0 <= j < i ==> {
                    &&& (#[trigger] params@[j]).name@ == decl.params@[j].name@
                    &&& params@[j].c_type@ == c_of_type_expr(decl.params@[j].type_expr)
                },
            decreases decl.params@.len() - i,
        {
            params.push(
                IrParam { name: decl.params[i].name.clone(), c_type: type_expr_to_c(&decl.params[i].type_expr) },
            );
            i = i + 1;
        }
        let return_type = match &decl.return_type {
            Some(t) => type_expr_to_c(t),
            None => String::from_str("void"),
        };
        let body = match &decl.body {
            Some(block) => self.lower_block(block),
            None => {
                let b = Vec::new();
                assert(stmts_v(b) =~= Seq::<IrStmtV>::empty());
                b
            },
        };
        proof {
            reveal_strlit("launch");
        }
        let is_entry = str_eq(decl.name.as_str(), "launch");
        let f = IrFunction { name: decl.name.clone(), params, return_type, body, is_entry };
        assert(function_v(f).params =~= lowered_function(*decl, old(self).temp_counter).0.params);
        f
    }

    fn lower_block(&mut self, block: &Block) -> (r: Vec<IrStmt>)
        ensures
            (stmts_v(r), final(self).temp_counter) == lowered_block(*block, old(self).temp_counter),
        decreases block, 1int,
    {
        let mut stmts: Vec<IrStmt> = Vec::new();
        let mut i: usize = 0;
        let ghost n0 = self.temp_counter;
        proof {
            lemma_stmts_v(stmts);
        }
        while i < block.stmts.len()
            invariant
                i <= block.stmts@.len(),
                (seq_v(stmts@), self.temp_counter) == lowered_stmts(block.stmts, i as int, n0),
            decreases block.stmts@.len() - i,
        {
            let ghost before = stmts@;
            let mut lowered = self.lower_stmt(&block.stmts[i]);
            proof {
                lemma_stmts_v(lowered);
            }
            let ghost part = lowered@;
            stmts.append(&mut lowered);
            proof {
                lemma_seq_v_concat(before, part);
            }
            i = i + 1;
        }
        proof {
            lemma_stmts_v(stmts);
        }
        stmts
    }

    /// Lower one statement.
    fn lower_stmt(&mut self, stmt: &Stmt) -> (r: Vec<IrStmt>)
        ensures
            (stmts_v(r), final(self).temp_counter) == lowered_stmt(*stmt, old(self).temp_counter),
        decreases stmt, 0int,
    {
        let r = match stmt {
            Stmt::Let(s) => {
                let c_type = match &s.type_expr {
                    Some(t) => type_expr_to_c(t),
                    None => infer_c_type(&s.value),
                };
                let init = expr_to_c(&s.value);
                vec![IrStmt::VarDecl { name: s.name.clone(), c_type, init: Some(init) }]
            },
            Stmt::Var(s) => {
                let c_type = match &s.type_expr {
                    Some(t) => type_expr_to_c(t),
                    None => infer_c_type(&s.value),
                };
                let init = expr_to_c(&s.value);
                vec![IrStmt::VarDecl { name: s.name.clone(), c_type, init: Some(init) }]
            },
            Stmt::Assign(s) => {
                let target = expr_to_c(&s.target);
                let value = expr_to_c(&s.value);
                let op_str = match s.op {
                    AssignOp::Assign => "=",
                    AssignOp::AddAssign => "+=",
                    AssignOp::SubAssign => "-=",
                    AssignOp::MulAssign => "*=",
                    AssignOp::DivAssign => "/=",
                    AssignOp::ModAssign => "%=",
                };
                let v = String::from_str(op_str).concat(" ").concat(value.as_str());
                vec![IrStmt::Assign { target, value: v }]
            },
            Stmt::Expr(s) => vec![IrStmt::Expr { expr: expr_to_c(&s.expr) }],
            Stmt::If(s) => {
                let condition = expr_to_c(&s.condition);
                let then_body = self.lower_block(&s.then_block);
                let else_body = self.lower_else(s, 0);
                vec![IrStmt::If { condition, then_body, else_body }]
            },
            Stmt::While(s) => {
                let condition = expr_to_c(&s.condition);
                let body = self.lower_block(&s.body);
                vec![IrStmt::While { condition, body }]
            },
            Stmt::Loop(s) => {
                let body = self.lower_block(&s.body);
                proof {
                    reveal_strlit("1");
                }
                vec![IrStmt::While { condition: String::from_str("1"), body }]
            },
            Stmt::For(s) => {
                let iterable = expr_to_c(&s.iterable);
                let body = self.lower_block(&s.body);
                // a for-each loop becomes a while loop over an index
                let idx = self.fresh_temp();
                let comment = String::from_str("for ").concat(s.binding.as_str()).concat(" in ...");
                let mut loop_body: Vec<IrStmt> = Vec::new();
                loop_body.push(
                    IrStmt::VarDecl {
                        name: s.binding.clone(),
                        c_type: String::from_str("int64_t"),
                        init: Some(idx.clone()),
                    },
                );
                let ghost head = loop_body@;
                proof {
                    lemma_stmts_v(body);
                }
                let ghost middle = body@;
                let mut body = body;
                loop_body.append(&mut body);
                let ghost with_body = loop_body@;
                let step = IrStmt::Assign {
                    target: idx.clone(),
                    value: String::from_str("= ").concat(idx.as_str()).concat(" + 1"),
                };
                let ghost step_v = step;
                loop_body.push(step);
                proof {
                    lemma_seq_v_concat(head, middle);
                    lemma_seq_v_concat(with_body, seq![step_v]);
                    lemma_stmts_v(loop_body);
                    assert(seq_v(head) =~= seq![stmt_v(head[0])]);
                    assert(seq_v(seq![step_v]) =~= seq![stmt_v(step_v)]);
                    assert(loop_body@ =~= with_body + seq![step_v]);
                }
                let condition = idx.clone().concat(" < gxc_len(").concat(iterable.as_str()).concat(")");
                vec![
                    IrStmt::Comment { text: comment },
                    IrStmt::VarDecl {
                        name: idx,
                        c_type: String::from_str("int64_t"),
                        init: Some(String::from_str("0")),
                    },
                    IrStmt::While { condition, body: loop_body },
                ]
            },
            Stmt::Return(s) => {
                let value = match &s.value {
                    Some(v) => Some(expr_to_c(v)),
                    None => None,
                };
                vec![IrStmt::Return { value }]
            },
            Stmt::Break(_) => vec![IrStmt::Break],
            Stmt::Continue(_) => vec![IrStmt::Continue],
            Stmt::Match(s) => {
                // a match becomes a chain of if / else if
                let subject = expr_to_c(&s.subject);
                let subject_temp = self.fresh_temp();
                let mut stmts = vec![
                    IrStmt::VarDecl {
                        name: subject_temp.clone(),
                        c_type: String::from_str("int64_t"),
                        init: Some(subject),
                    },
                ];
                let ghost head = stmts@;
                assert(seq_v(head) =~= seq![stmt_v(head[0])]);
                if s.arms.len() > 0 {
                    let mut chain = self.lower_match_chain(subject_temp.as_str(), &s.arms, 0);
                    proof {
                        lemma_stmts_v(chain);
                    }
                    let ghost tail = chain@;
                    stmts.append(&mut chain);
                    proof {
                        lemma_seq_v_concat(head, tail);
                    }
                } else {
                    assert(seq_v(Seq::<IrStmt>::empty()) =~= Seq::<IrStmtV>::empty());
                }
                stmts
            },
            Stmt::Select(_) => {
                vec![IrStmt::Comment { text: String::from_str("select statement (tasking runtime required)") }]
            },
            Stmt::Item(_) => Vec::new(),
        };
        proof {
            lemma_stmts_v(r);
            reveal_strlit("int64_t");
            reveal_strlit("0");
            reveal_strlit("1");
            assert(r@.len() == 0 ==> seq_v(r@) =~= Seq::empty());
            assert(r@.len() == 1 ==> seq_v(r@) =~= seq![stmt_v(r@[0])]);
            assert(r@.len() == 3 ==> seq_v(r@) =~= seq![stmt_v(r@[0]), stmt_v(r@[1]), stmt_v(r@[2])]);
        }
        r
    }

    /// Lower the `else if` branches of an `if` statement from `from` on,
    /// each nested in the `else` of the one before, and its final `else`.
    fn lower_else(&mut self, s: &IfStmt, from: usize) -> (r: Vec<IrStmt>)
        requires
            from <= s.else_ifs@.len(),
        ensures
            (stmts_v(r), final(self).temp_counter) == lowered_else(*s, from as int, old(self).temp_counter),
        decreases s, 0int, s.else_ifs@.len() - from,
    {
        if from >= s.else_ifs.len() {
            let r = match &s.else_block {
                Some(eb) => self.lower_block(eb),
                None => Vec::new(),
            };
            proof {
                lemma_stmts_v(r);
                assert(seq_v(Seq::<IrStmt>::empty()) =~= Seq::<IrStmtV>::empty());
            }
            return r;
        }
        let condition = expr_to_c(&s.else_ifs[from].0);
        let body = self.lower_block(&s.else_ifs[from].1);
        let else_body = self.lower_else(s, from + 1);
        let r = vec![IrStmt::If { condition, then_body: body, else_body }];
        proof {
            lemma_stmts_v(r);
            assert(seq_v(r@) =~= seq![stmt_v(r@[0])]);
        }
        r
    }

    /// Lower the match arms from `from` on into nested if / else.
    fn lower_match_chain(&mut self, subject: &str, arms: &Vec<MatchArm>, from: usize) -> (r: Vec<IrStmt>)
        requires
            from <= arms@.len(),
        ensures
            (stmts_v(r), final(self).temp_counter) == lowered_arms(
                subject@,
                *arms,
                from as int,
                old(self).temp_counter,
            ),
        decreases arms, arms@.len() - from,
    {
        if from >= arms.len() {
            let r = Vec::new();
            proof {
                lemma_stmts_v(r);
                assert(seq_v(r@) =~= Seq::empty());
            }
            return r;
        }
        let arm = &arms[from];
        let ghost n0 = self.temp_counter;
        let condition = pattern_to_condition(subject, &arm.pattern);
        let body = match &arm.body {
            MatchArmBody::Block(block) => self.lower_block(block),
            MatchArmBody::Expr(expr) => {
                let b = vec![IrStmt::Expr { expr: expr_to_c(expr) }];
                proof {
                    lemma_stmts_v(b);
                    assert(seq_v(b@) =~= seq![stmt_v(b@[0])]);
                }
                b
            },
        };
        let ghost n1 = self.temp_counter;
        assert((stmts_v(body), n1) == match arm.body {
            MatchArmBody::Block(b) => lowered_block(b, n0),
            MatchArmBody::Expr(e) => (seq![IrStmtV::Expr { expr: c_of_expr(e) }], n0),
        });
        let else_body = if from + 1 < arms.len() {
            self.lower_match_chain(subject, arms, from + 1)
        } else {
            let e = Vec::new();
            proof {
                lemma_stmts_v(e);
                assert(seq_v(e@) =~= Seq::empty());
            }
            e
        };
        assert((stmts_v(else_body), self.temp_counter) == lowered_arms(subject@, *arms, from + 1, n1));
        let r = vec![IrStmt::If { condition, then_body: body, else_body }];
        proof {
            lemma_stmts_v(r);
            assert(seq_v(r@) =~= seq![stmt_v(r@[0])]);
        }
        r
    }
}

/// The plain values of IR structs.
pub open spec fn structs_vs(s: Seq<IrStruct>) -> Seq<IrStructV> {
    Seq::new(s.len(), |i: int| struct_v(s[i]))
}

/// The plain values of IR enums.
pub open spec fn enums_vs(s: Seq<IrEnum>) -> Seq<IrEnumV> {
    Seq::new(s.len(), |i: int| enum_v(s[i]))
}

/// The plain values of IR functions.
pub open spec fn functions_vs(s: Seq<IrFunction>) -> Seq<IrFunctionV> {
    Seq::new(s.len(), |i: int| function_v(s[i]))
}

/// The plain values of IR constants.
pub open spec fn consts_vs(s: Seq<IrConst>) -> Seq<IrConstV> {
    Seq::new(s.len(), |i: int| const_v(s[i]))
}

/// The plain values of a sequence of IR statements.
pub open spec fn seq_v(s: Seq<IrStmt>) -> Seq<IrStmtV> {
    Seq::new(s.len(), |i: int| stmt_v(s[i]))
}

proof fn lemma_stmts_v(v: Vec<IrStmt>)
    ensures
        stmts_v(v) == seq_v(v@),
{
    assert(stmts_v(v) =~= seq_v(v@));
}

proof fn lemma_seq_v_concat(a: Seq<IrStmt>, b: Seq<IrStmt>)
    ensures
        seq_v(a + b) == seq_v(a) + seq_v(b),
{
    assert(seq_v(a + b) =~= seq_v(a) + seq_v(b));
}

/// Whether one of `functions` is named `launch`.
fn has_launch(functions: &Vec<IrFunction>) -> (b: bool)
    ensures
        b == exists|i: int| 0 <= i < functions@.len() && (#[trigger] functions@[i]).name@ == "launch"@,
{
    let mut k: usize = 0;
    while k < functions.len()
        invariant
            k <= functions@.len(),
            forall|j: int| 0 <= j < k ==> (#[trigger] functions@[j]).name@ != "launch"@,
        decreases functions@.len() - k,
    {
        if str_eq(functions[k].name.as_str(), "launch") {
            assert(functions@[k as int].name@ == "launch"@);
            return true;
        }
        k = k + 1;
    }
    false
}

/// Lower a struct declaration.
fn lower_struct(decl: &StructDecl) -> (s: IrStruct)
    ensures
        struct_v(s) == lowered_struct(*decl),
{
    let s = IrStruct { name: decl.name.clone(), fields: lower_fields(&decl.fields) };
    assert(fields_v(s.fields@) =~= decl_fields(decl.fields@));
    s
}

/// Lower an enum declaration; each variant's tag is its position.
fn lower_enum(decl: &EnumDecl) -> (e: IrEnum)
    ensures
        enum_v(e) == lowered_enum(*decl),
{
    let mut variants: Vec<IrVariant> = Vec::new();
    let mut i: usize = 0;
    while i < decl.variants.len()
        invariant
            i <= decl.variants@.len(),
            variants@.len() == i,
            forall|j: int| 0 <= j < i ==> {
                &&& (#[trigger] variants@[j]).name@ == decl.variants@[j].name@
                &&& variants@[j].tag == j
                &&& fields_lowered(decl.variants@[j].fields@, variants@[j].fields@)
            },
        decreases decl.variants@.len() - i,
    {
        let v = &decl.variants[i];
        variants.push(IrVariant { name: v.name.clone(), tag: i, fields: lower_fields(&v.fields) });
        i = i + 1;
    }
    let e = IrEnum { name: decl.name.clone(), variants };
    assert forall|j: int| 0 <= j < e.variants@.len() implies fields_v(e.variants@[j].fields@)
        == decl_fields(decl.variants@[j].fields@) by {
        assert(fields_v(e.variants@[j].fields@) =~= decl_fields(decl.variants@[j].fields@));
    }
    assert(enum_v(e).variants =~= lowered_enum(*decl).variants);
    e
}

/// Lower a constant; an undeclared type is `int64_t`.
fn lower_const(decl: &ConstDecl) -> (c: IrConst)
    ensures
        const_v(c) == lowered_const(*decl),
{
    let c_type = match &decl.type_expr {
        Some(t) => type_expr_to_c(t),
        None => String::from_str("int64_t"),
    };
    IrConst { name: decl.name.clone(), c_type, value: expr_to_c(&decl.value) }
}

} // verus!
