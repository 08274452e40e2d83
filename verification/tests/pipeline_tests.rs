use galaxc::ast::{Item, LiteralValue, Pattern, Stmt, TypeExpr};
use galaxc::checker::check;
use galaxc::diagnostics::{Diagnostic, DiagnosticKind};
use galaxc::ir::{display, lower};
use galaxc::lexer::tokenize;
use galaxc::parser::parse;
use galaxc::{check_only, emit_ir};

fn check_code(code: &str) -> Vec<Diagnostic> {
    let tokens = tokenize(code, "test.gxc").expect("Lexer error in test");
    let program = parse(tokens, code, "test.gxc").expect("Parser error in test");
    match check(program, "test.gxc") {
        Ok(_) => Vec::new(),
        Err(errors) => errors,
    }
}

fn ir_text(code: &str) -> String {
    let tokens = tokenize(code, "test.gxc").expect("lexes");
    let program = parse(tokens, code, "test.gxc").expect("parses");
    display(&lower(&program))
}

#[test]
fn test_immutable_assignment() {
    let code = "
        orbit test
        op main() =>
            let x = 10
            x = 20
        end
    ";
    let errors = check_code(code);
    assert!(!errors.is_empty());
    assert!(errors[0].message.contains("cannot assign to immutable"));
}

#[test]
fn test_must_use_result() {
    let code = "
        orbit test
        op main() =>
            let res: Result<Int, Text> = Ok(10)
            res
        end
    ";
    let errors = check_code(code);
    assert!(!errors.is_empty());
    assert!(errors[0].message.contains("must be handled"));
}

#[test]
fn test_effect_safety() {
    let code = "
        orbit test
        @effect(io)
        op do_io() => end

        op main() =>
            do_io()
        end
    ";
    let errors = check_code(code);
    assert!(!errors.is_empty());
    assert!(errors[0].message.contains("requires effect 'io'"));
}

#[test]
fn test_match_exhaustiveness() {
    let code = "
        orbit test
        enum State =>
            A
            B
        end
        op main(s: State) =>
            match s =>
                State::A => 1
            end
        end
    ";
    let errors = check_code(code);
    assert!(!errors.is_empty());
    assert!(errors[0].message.contains("variant 'B' not covered"));
}

#[test]
fn emit_ir_of_a_small_program() {
    let code = "orbit demo\n\nop launch() -> Int =>\n    let x: Int = 40 + 2\n    return x\nend\n";
    let text = emit_ir(code, "demo.gxc").expect("compiles");
    assert_eq!(
        text,
        "module demo\n\nfn launch() -> int64_t {\n  int64_t x = (40LL + 2LL);\n  return x;\n}\n\n"
    );
}

#[test]
fn check_only_accepts_a_valid_program() {
    let code = "orbit demo\n\nop launch() -> Int =>\n    let x: Int = 40 + 2\n    return x\nend\n";
    assert!(check_only(code, "demo.gxc").is_ok());
}

#[test]
fn check_only_reports_lexer_errors() {
    let errors = check_only("let s = \"abc", "bad.gxc").unwrap_err();
    assert!(!errors.is_empty());
    assert_eq!(errors[0].kind, DiagnosticKind::Error);
    assert_eq!(errors[0].message, "unterminated string literal");
}

#[test]
fn check_only_reports_parse_errors() {
    let errors = check_only("op launch( =>\nend\n", "bad.gxc").unwrap_err();
    assert!(!errors.is_empty());
    assert!(errors.iter().all(|d| d.kind == DiagnosticKind::Error));
}

#[test]
fn emit_ir_reports_type_errors() {
    let code = "op main() =>\n    let x = 10\n    x = 20\nend\n";
    let errors = emit_ir(code, "t.gxc").unwrap_err();
    assert_eq!(errors[0].message, "cannot assign to immutable location");
    assert_eq!(errors[0].filename.as_deref(), Some("t.gxc"));
}

#[test]
fn struct_lowering_uses_c_types() {
    let code = "struct Probe =>\n    mass: Float64\n    id: Int\n    name: Text\nend\n";
    assert_eq!(
        ir_text(code),
        "struct Probe {\n  mass: double\n  id: int64_t\n  name: GxcText\n}\n\n"
    );
}

#[test]
fn unit_annotation_needs_a_lower_case_unit() {
    let with_unit = ir_text("struct Leg =>\n    dist: Text<m>\nend\n");
    assert_eq!(with_unit, "struct Leg {\n  dist: double\n}\n\n");
    let generic = ir_text("struct Leg =>\n    dist: Text<M>\nend\n");
    assert_eq!(generic, "struct Leg {\n  dist: GxcText\n}\n\n");
}

#[test]
fn entry_point_is_launch() {
    let code = "op launch() =>\n    return\nend\n";
    let tokens = tokenize(code, "t.gxc").unwrap();
    let program = parse(tokens, code, "t.gxc").unwrap();
    let ir = lower(&program);
    assert_eq!(ir.entry_point.as_deref(), Some("launch"));
    assert!(ir.module_name.is_none());
}

#[test]
fn operators_group_by_precedence_and_to_the_left() {
    let code = "op f() -> Int =>\n    return 1 + 2 * 3 - 4\nend\n";
    assert_eq!(
        ir_text(code),
        "fn f() -> int64_t {\n  return ((1LL + (2LL * 3LL)) - 4LL);\n}\n\n"
    );
    let code = "op g(a: Int, b: Int) -> Bool =>\n    return -a < b and not b == 0\nend\n";
    assert_eq!(
        ir_text(code),
        "fn g(a: int64_t, b: int64_t) -> bool {\n  return (((-a) < b) && ((!b) == 0LL));\n}\n\n"
    );
}

#[test]
fn loops_and_matches_are_lowered_with_numbered_temporaries() {
    let code = "op f(xs: Int) =>\n    for x in xs =>\n        print(x)\n    end\n    match x =>\n        Active(y) => 1\n        Idle => 2\n    end\nend\n";
    assert_eq!(
        ir_text(code),
        "fn f(xs: int64_t) -> void {\n\
         \x20 // for x in ...\n\
         \x20 int64_t _t0 = 0;\n\
         \x20 while (_t0 < gxc_len(xs)) {\n\
         \x20   int64_t x = _t0;\n\
         \x20   print(x);\n\
         \x20   _t0 = = _t0 + 1;\n\
         \x20 }\n\
         \x20 int64_t _t1 = x;\n\
         \x20 if (_t1.tag == GXC_TAG_ACTIVE) {\n\
         \x20   1LL;\n\
         \x20 } else {\n\
         \x20   if (1) {\n\
         \x20     2LL;\n\
         \x20   }\n\
         \x20 }\n\
         }\n\n"
    );
}

#[test]
fn impl_methods_are_named_after_their_type() {
    let code = "impl Probe =>\n    op launch() =>\n        return\n    end\nend\n";
    let tokens = tokenize(code, "t.gxc").unwrap();
    let program = parse(tokens, code, "t.gxc").unwrap();
    let ir = lower(&program);
    assert_eq!(ir.functions.len(), 1);
    assert_eq!(ir.functions[0].name, "Probe_launch");
    assert!(ir.functions[0].is_entry);
    assert!(ir.entry_point.is_none());
}

#[test]
fn break_and_continue_outside_loops_are_rejected() {
    let errors = check_code("op f() =>\n    break\nend\n");
    assert_eq!(errors.len(), 1);
    assert_eq!(errors[0].message, "'break' used outside of a loop");
    let errors = check_code("op f() =>\n    continue\nend\n");
    assert_eq!(errors[0].message, "'continue' used outside of a loop");
    assert!(check_code("op f() =>\n    loop =>\n        break\n    end\nend\n").is_empty());
}

#[test]
fn match_patterns_keep_their_structure() {
    let code = "op f() =>\n    match x =>\n        Shape::Circle(r, _) => 1\n        (a, 2,) => 2\n        ok(v) => 3\n        Idle => 4\n    end\nend\n";
    let tokens = tokenize(code, "t.gxc").unwrap();
    let program = parse(tokens, code, "t.gxc").unwrap();
    let body = match &program.items[0] {
        Item::Op(op) => op.body.as_ref().unwrap(),
        _ => panic!("expected an op"),
    };
    let arms = match &body.stmts[0] {
        Stmt::Match(m) => &m.arms,
        _ => panic!("expected a match"),
    };
    assert_eq!(arms.len(), 4);
    match &arms[0].pattern {
        Pattern::Variant { path, fields, .. } => {
            assert_eq!(path, &vec!["Shape".to_string(), "Circle".to_string()]);
            assert_eq!(fields.len(), 2);
            assert!(matches!(&fields[0].pattern, Pattern::Binding { name, .. } if name == "r"));
            assert!(matches!(&fields[1].pattern, Pattern::Wildcard { .. }));
            assert!(fields[0].name.is_none());
        }
        _ => panic!("expected a qualified variant"),
    }
    match &arms[1].pattern {
        Pattern::Tuple { elements, span } => {
            assert_eq!(elements.len(), 2);
            assert!(matches!(&elements[0], Pattern::Binding { name, .. } if name == "a"));
            assert!(matches!(&elements[1], Pattern::Literal { value: LiteralValue::Int(2), .. }));
            assert_eq!(&code[span.start..span.end], "(a, 2,)");
        }
        _ => panic!("expected a tuple"),
    }
    match &arms[2].pattern {
        Pattern::Variant { path, fields, span } => {
            assert_eq!(path, &vec!["Result".to_string(), "ok".to_string()]);
            assert_eq!(fields.len(), 1);
            assert_eq!(&code[span.start..span.end], "ok(v)");
        }
        _ => panic!("expected a result variant"),
    }
    assert!(matches!(&arms[3].pattern, Pattern::Binding { name, .. } if name == "Idle"));
}

#[test]
fn declarations_and_simple_bodies_check_cleanly() {
    let code = "struct Probe =>\n    mass: Float64\nend\n\
                op idle()\n\
                op f() -> Bool =>\n    let a = 1 < 2\n    var b = -3\n    not true\n    \"text\" == \"text\"\n    return 1 == 1\nend\n";
    let tokens = tokenize(code, "t.gxc").expect("lexes");
    let program = parse(tokens, code, "t.gxc").expect("parses");
    assert_eq!(program.items.len(), 3);
    assert!(check(program, "t.gxc").is_ok());
    assert!(check_only(code, "t.gxc").is_ok());
}

#[test]
fn blank_text_is_the_empty_program() {
    let code = "  -- nothing here\n\n\t\n";
    let tokens = tokenize(code, "t.gxc").expect("lexes");
    assert_eq!(tokens.len(), 1);
    let program = parse(tokens, code, "t.gxc").expect("parses");
    assert!(program.module_decl.is_none());
    assert!(program.imports.is_empty());
    assert!(program.items.is_empty());
    assert!(check(program, "t.gxc").is_ok());
}

#[test]
fn field_types_keep_their_structure() {
    let code = "struct S =>\n    a: mut ref Int\n    b: [Int; 4]\n    c: (Int, Text,)\n    d: Map<Text, Int>\n    e: Float64<m>\n    f: geo::Point\nend\n";
    let tokens = tokenize(code, "t.gxc").unwrap();
    let program = parse(tokens, code, "t.gxc").unwrap();
    let fields = match &program.items[0] {
        Item::Struct(s) => &s.fields,
        _ => panic!("expected a struct"),
    };
    assert_eq!(fields.len(), 6);
    let text = |t: &TypeExpr| {
        let sp = t.span();
        code[sp.start..sp.end].to_string()
    };
    match &fields[0].type_expr {
        TypeExpr::Reference { inner, is_mut, .. } => {
            assert!(*is_mut);
            assert!(matches!(&**inner, TypeExpr::Named { name, generics, .. } if name == "Int" && generics.is_empty()));
        }
        _ => panic!("expected a reference"),
    }
    assert_eq!(text(&fields[0].type_expr), "mut ref Int");
    assert!(matches!(&fields[1].type_expr, TypeExpr::Array { .. }));
    assert_eq!(text(&fields[1].type_expr), "[Int; 4]");
    match &fields[2].type_expr {
        TypeExpr::Tuple { elements, .. } => assert_eq!(elements.len(), 2),
        _ => panic!("expected a tuple"),
    }
    assert_eq!(text(&fields[2].type_expr), "(Int, Text,)");
    match &fields[3].type_expr {
        TypeExpr::Named { name, generics, .. } => {
            assert_eq!(name, "Map");
            assert_eq!(generics.len(), 2);
        }
        _ => panic!("expected a generic type"),
    }
    assert_eq!(text(&fields[3].type_expr), "Map<Text, Int>");
    match &fields[4].type_expr {
        TypeExpr::UnitType { base, unit, .. } => {
            assert_eq!(base, "Float64");
            assert_eq!(unit, "m");
        }
        _ => panic!("expected a unit type"),
    }
    match &fields[5].type_expr {
        TypeExpr::Path { segments, generics, .. } => {
            assert_eq!(segments, &vec!["geo".to_string(), "Point".to_string()]);
            assert!(generics.is_empty());
        }
        _ => panic!("expected a path"),
    }
}

#[test]
fn let_and_var_keep_their_declared_types() {
    let code = "op f() =>\n    let x: Map<Text, Int> = 1\n    var y = 2\nend\n";
    let tokens = tokenize(code, "t.gxc").unwrap();
    let program = parse(tokens, code, "t.gxc").unwrap();
    let body = match &program.items[0] {
        Item::Op(op) => op.body.as_ref().unwrap(),
        _ => panic!("expected an op"),
    };
    match &body.stmts[0] {
        Stmt::Let(s) => {
            assert_eq!(s.name, "x");
            match s.type_expr.as_ref().unwrap() {
                TypeExpr::Named { name, generics, .. } => {
                    assert_eq!(name, "Map");
                    assert_eq!(generics.len(), 2);
                }
                _ => panic!("expected a named type"),
            }
        }
        _ => panic!("expected a let"),
    }
    match &body.stmts[1] {
        Stmt::Var(s) => {
            assert_eq!(s.name, "y");
            assert!(s.type_expr.is_none());
        }
        _ => panic!("expected a var"),
    }
}

#[test]
fn bodies_using_bound_variables_check_cleanly() {
    let code = "op f(a: Int, flag: Bool) -> Int =>\n    let b = a < 1\n    var c = -a\n    let d = not b == flag\n    5 == 6\n    return c\nend\n";
    let tokens = tokenize(code, "t.gxc").expect("lexes");
    let program = parse(tokens, code, "t.gxc").expect("parses");
    assert!(check(program, "t.gxc").is_ok());
    let errors = check_code("op g() -> Int =>\n    let b = 1\n    return missing\nend\n");
    assert_eq!(errors.len(), 1);
    assert_eq!(errors[0].message, "undefined variable 'missing'");
}

#[test]
fn unlexable_text_is_rejected_with_lexer_errors() {
    let errors = emit_ir("op f() =>\n    let c = 'ab'\nend\n", "t.gxc").unwrap_err();
    assert!(!errors.is_empty());
    assert!(errors.iter().all(|d| d.span.is_some() && d.filename.as_deref() == Some("t.gxc")));
    assert_eq!(errors[0].message, "unterminated character literal");
}

#[test]
fn declaration_heads_come_from_their_tokens() {
    let code = "unit knot = nmi / hour\nimpl Show for Probe =>\n    op show(self) =>\n        return\n    end\nend\nextern \"C\" =>\n    op puts(s: Text) -> Int\nend\npub op main(mut a: Int, b: Int) =>\nend\n";
    let tokens = tokenize(code, "t.gxc").unwrap();
    let program = parse(tokens, code, "t.gxc").unwrap();
    assert_eq!(program.items.len(), 4);
    match &program.items[0] {
        Item::UnitDecl(u) => {
            assert_eq!(u.name, "knot");
            assert_eq!(u.definition, "nmi / hour");
        }
        _ => panic!("expected a unit"),
    }
    match &program.items[1] {
        Item::ImplBlock(b) => {
            assert_eq!(b.ability.as_deref(), Some("Show"));
            assert_eq!(b.target, "Probe");
            assert_eq!(b.methods[0].params[0].name, "self");
        }
        _ => panic!("expected an impl block"),
    }
    match &program.items[2] {
        Item::ExternBlock(e) => {
            assert_eq!(e.abi, "C");
            assert_eq!(e.functions[0].name, "puts");
        }
        _ => panic!("expected an extern block"),
    }
    match &program.items[3] {
        Item::Op(f) => {
            assert!(f.is_pub);
            assert_eq!(f.name, "main");
            assert_eq!(f.params.len(), 2);
            assert!(f.params[0].is_mut);
            assert_eq!(f.params[0].name, "a");
            assert!(!f.params[1].is_mut);
        }
        _ => panic!("expected an op"),
    }
    let errors = check_code("static_assert(3)\n");
    assert_eq!(errors.len(), 1);
    assert_eq!(errors[0].message, "static_assert condition must be a Bool expression");
    let errors = check_code("const c: Bool = 1\n");
    assert_eq!(errors.len(), 1);
    assert_eq!(errors[0].message, "constant 'c' declared as Bool but initialized with Int");
}

#[test]
fn programs_of_empty_operations_are_accepted() {
    let code = "orbit main\n\nop launch() =>\nend\nop idle() => end\n";
    assert!(check_only(code, "t.gxc").is_ok());
    let tokens = tokenize(code, "t.gxc").unwrap();
    let program = parse(tokens, code, "t.gxc").unwrap();
    assert_eq!(program.items.len(), 2);
    match &program.items[1] {
        Item::Op(op) => {
            assert_eq!(op.name, "idle");
            assert!(op.body.as_ref().unwrap().stmts.is_empty());
        },
        _ => panic!("expected an op"),
    }
    assert_eq!(emit_ir(code, "t.gxc").unwrap(), ir_text(code));
}

#[test]
fn the_hello_world_program_checks() {
    let code = "orbit main\n\n@effect(io)\nop launch() =>\n    console.write(\"GalaxC online. All systems nominal.\")\nend\n";
    assert!(check_only(code, "hello.gxc").is_ok());
}
