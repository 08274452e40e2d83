use galaxc::ast::{BinaryOp, Expr, ImportNames, Item, Pattern, Stmt};
use galaxc::checker::check;
use galaxc::checker::env::TypeEnv;
use galaxc::diagnostics::Diagnostic;
use galaxc::ir::c_text::c_escaped;
use galaxc::ir::{display, lower};
use galaxc::lexer::tokenize;
use galaxc::parser::parse;
use galaxc::types::{EnumInfo, Type};
use galaxc::{check_only, emit_ir};

fn errors_of(code: &str) -> Vec<Diagnostic> {
    let tokens = tokenize(code, "t.gxc").expect("lexes");
    let program = parse(tokens, code, "t.gxc").expect("parses");
    match check(program, "t.gxc") {
        Ok(_) => Vec::new(),
        Err(errors) => errors,
    }
}

fn ir_of(code: &str) -> String {
    let tokens = tokenize(code, "t.gxc").expect("lexes");
    let program = parse(tokens, code, "t.gxc").expect("parses");
    display(&lower(&program))
}

#[test]
fn readme_hello_world_checks() {
    let src = "orbit main\n\n@effect(io)\nop launch() =>\n    console.write(\"GalaxC online. All systems nominal.\")\nend\n";
    assert!(check_only(src, "hello.gxc").is_ok());
}

#[test]
fn blank_text_checks_and_lowers_to_nothing() {
    assert!(check_only("\n\n", "blank.gxc").is_ok());
    assert!(emit_ir("", "blank.gxc").is_ok());
}

#[test]
fn top_level_let_is_refused() {
    let errors = check_only("let x = 1", "t.gxc").unwrap_err();
    assert_eq!(errors[0].message, "expected declaration, found 'let'");
    let errors = emit_ir("\n\nlet x = 1\n", "t.gxc").unwrap_err();
    assert_eq!(errors[0].message, "expected declaration, found 'let'");
}

#[test]
fn byte_is_numeric_like_uint8() {
    assert!(Type::Byte.is_numeric());
    assert!(Type::Uint8.is_numeric());
    assert!(Type::Byte.is_integer());
}

#[test]
fn integer_widening_is_accepted_and_narrowing_refused() {
    let widening = "op main() =>\n    let a: Int8 = 5\n    let b: Int64 = a\n    let c: Uint8 = 1\n    let d: Int16 = c\nend\n";
    assert!(errors_of(widening).is_empty());
    let narrowing = "op main() =>\n    let a: Int64 = 5\n    let b: Int8 = a\nend\n";
    let errors = errors_of(narrowing);
    assert_eq!(errors.len(), 1);
    assert_eq!(errors[0].message, "cannot assign Int64 to variable 'b' of type Int8");
    let sign = "op main() =>\n    let a: Uint32 = 5\n    let b: Int32 = a\nend\n";
    assert_eq!(errors_of(sign)[0].message, "cannot assign Uint32 to variable 'b' of type Int32");
}

#[test]
fn integer_literals_fit_any_integer_slot() {
    assert!(errors_of("op main() =>\n    let a: Int32 = 2000000000\n    let b: Byte = 7\nend\n").is_empty());
    assert!(errors_of("const LIMIT: Int16 = 300\n").is_empty());
}

#[test]
fn arithmetic_takes_the_left_operand_type() {
    let kept = "op main() =>\n    let a: Int8 = 1\n    let b = a + 2\n    let c: Int8 = b\nend\n";
    assert!(errors_of(kept).is_empty());
    let wider = "op main() =>\n    let a: Int8 = 1\n    let b = 2 + a\n    let c: Int8 = b\nend\n";
    assert_eq!(errors_of(wider)[0].message, "cannot assign Int to variable 'c' of type Int8");
}

#[test]
fn a_path_naming_an_enum_resolves_to_the_enum() {
    let code = "enum State =>\n    A\n    B\nend\nop main(s: m::State) =>\n    let t: State = s\nend\n";
    assert!(errors_of(code).is_empty());
}

#[test]
fn break_after_a_nested_loop_is_inside_the_outer_loop() {
    let code = "op f() =>\n    loop =>\n        loop =>\n            break\n        end\n        break\n    end\nend\n";
    assert!(errors_of(code).is_empty());
    let code = "op f() =>\n    loop =>\n        break\n    end\n    break\nend\n";
    assert_eq!(errors_of(code)[0].message, "'break' used outside of a loop");
}

#[test]
fn dropped_results_inside_blocks_are_reported() {
    let code = "op f(c: Bool) =>\n    if c =>\n        ok(1)\n    end\nend\n";
    let errors = errors_of(code);
    assert!(errors.iter().any(|d| d.message.contains("must be handled")));
    let code = "op f(c: Bool) =>\n    while c =>\n        err(2)\n    end\nend\n";
    assert!(errors_of(code).iter().any(|d| d.message.contains("must be handled")));
}

#[test]
fn builtin_environment_holds_option_result_and_console() {
    let env = TypeEnv::new();
    let o = env.lookup_type("Option").unwrap();
    let r = env.lookup_type("Result").unwrap();
    let c = env.lookup_type("Console").unwrap();
    let option = env.get_enum(o).unwrap();
    assert_eq!(option.variants.len(), 2);
    assert_eq!(option.variants[0].name, "Some");
    assert_eq!(option.variants[1].name, "None");
    let result = env.get_enum(r).unwrap();
    assert_eq!(result.variants[0].name, "Ok");
    assert_eq!(result.variants[1].name, "Err");
    let console = env.get_struct(c).unwrap();
    assert_eq!(console.methods.len(), 1);
    assert_eq!(console.methods[0].name, "write");
    assert_eq!(console.methods[0].effects, vec!["io".to_string()]);
    let binding = env.lookup_var("console").unwrap();
    assert!(!binding.mutable);
    assert!(env.get_function("write").is_none());
}

#[test]
fn else_if_branches_lower_to_nested_ifs() {
    let code = "op f(a: Bool, b: Bool) =>\n    if a =>\n        break\n    end\n    else if b =>\n        continue\n    end\n    else =>\n        return\n    end\nend\n";
    assert_eq!(
        ir_of(code),
        "fn f(a: bool, b: bool) -> void {\n\
         \x20 if (a) {\n\
         \x20   break;\n\
         \x20 } else {\n\
         \x20   if (b) {\n\
         \x20     continue;\n\
         \x20   } else {\n\
         \x20     return;\n\
         \x20   }\n\
         \x20 }\n\
         }\n\n"
    );
}

#[test]
fn string_literals_are_escaped_for_c() {
    assert_eq!(c_escaped("a\"b"), "a\\\"b");
    assert_eq!(c_escaped("back\\slash"), "back\\\\slash");
    assert_eq!(c_escaped("line\nfeed\ttab"), "line\\nfeed\\ttab");
    assert_eq!(c_escaped("bell\u{7}"), "bell\\007");
    assert_eq!(c_escaped("plain"), "plain");
}

#[test]
fn line_breaks_inside_brackets_are_dropped() {
    let code = "op f() =>\n    g(1,\n      2)\nend\n";
    let tokens = tokenize(code, "t.gxc").unwrap();
    assert!(parse(tokens, code, "t.gxc").is_ok());
}

#[test]
fn dotted_variant_patterns_are_variants() {
    let code = "op f() =>\n    match c =>\n        Command.Thrust(force) => 1\n        Command.Idle => 2\n    end\nend\n";
    let tokens = tokenize(code, "t.gxc").unwrap();
    let program = parse(tokens, code, "t.gxc").unwrap();
    let body = match &program.items[0] {
        Item::Op(op) => op.body.as_ref().unwrap(),
        _ => panic!("expected an op"),
    };
    let arms = match &body.stmts[0] {
        Stmt::Match(m) => &m.arms,
        _ => panic!("expected a match"),
    };
    match &arms[0].pattern {
        Pattern::Variant { path, fields, .. } => {
            assert_eq!(path, &vec!["Command".to_string(), "Thrust".to_string()]);
            assert_eq!(fields.len(), 1);
            assert!(matches!(&fields[0].pattern, Pattern::Binding { name, .. } if name == "force"));
        }
        _ => panic!("expected a variant"),
    }
    match &arms[1].pattern {
        Pattern::Variant { path, fields, .. } => {
            assert_eq!(path, &vec!["Command".to_string(), "Idle".to_string()]);
            assert!(fields.is_empty());
        }
        _ => panic!("expected a variant"),
    }
}

#[test]
fn imports_keep_their_path_names_and_alias() {
    let code = "orbit m\ndock core.math.{sin, cos} as cm\ndock core.io\n";
    let tokens = tokenize(code, "t.gxc").unwrap();
    let program = parse(tokens, code, "t.gxc").unwrap();
    assert_eq!(program.imports.len(), 2);
    let first = &program.imports[0];
    assert_eq!(first.path.segments, vec!["core".to_string(), "math".to_string()]);
    match &first.names {
        ImportNames::Specific(names) => assert_eq!(names, &vec!["sin".to_string(), "cos".to_string()]),
        ImportNames::Module => panic!("expected names"),
    }
    assert_eq!(first.alias.as_deref(), Some("cm"));
    let second = &program.imports[1];
    assert_eq!(second.path.segments, vec!["core".to_string(), "io".to_string()]);
    assert!(matches!(second.names, ImportNames::Module));
    assert!(second.alias.is_none());
}

#[test]
fn member_access_takes_the_member_type() {
    let field = "struct Probe =>\n    mass: Float64\nend\nop f(p: Probe) =>\n    let m: Text = p.mass\nend\n";
    assert_eq!(errors_of(field)[0].message, "cannot assign Float64 to variable 'm' of type Text");
    let index = "op f(xs: [Int; 3]) =>\n    let y: Text = xs[0]\nend\n";
    assert_eq!(errors_of(index)[0].message, "cannot assign Int to variable 'y' of type Text");
    let method = "op f() =>\n    let w: Int = console.write(\"x\")\nend\n";
    assert!(errors_of(method)[0].message.starts_with("cannot assign "));
}

#[test]
fn scanner_stays_at_the_end() {
    let mut scanner = galaxc::lexer::Scanner::new("x", "t.gxc");
    let first = scanner.next_token().unwrap();
    assert_eq!(first.kind, galaxc::lexer::TokenKind::Identifier);
    for _ in 0..3 {
        let t = scanner.next_token().unwrap();
        assert_eq!(t.kind, galaxc::lexer::TokenKind::Eof);
        assert_eq!(t.span.start, 1);
        assert_eq!(t.span.end, 1);
    }
}

#[test]
fn lexemes_are_the_text_they_span() {
    let src = "let s = \"grüße\" ++ x_1 + 42";
    let tokens = tokenize(src, "t.gxc").unwrap();
    for t in &tokens {
        if t.kind != galaxc::lexer::TokenKind::Eof && t.kind != galaxc::lexer::TokenKind::Newline {
            assert_eq!(&src[t.span.start..t.span.end], t.lexeme.as_str());
        }
    }
}

#[test]
fn keywords_are_named_by_their_text() {
    for w in ["let", "op", "orbit", "dock", "static_assert", "Self", "and", "or", "not", "none"] {
        let k = galaxc::lexer::TokenKind::keyword(w).unwrap();
        assert_eq!(k.name(), format!("'{}'", w));
    }
}

#[test]
fn type_bindings_end_with_their_scope() {
    let mut env = TypeEnv::new();
    env.push_scope();
    env.register_enum(EnumInfo {
        id: 40,
        name: "Local".to_string(),
        variants: Vec::new(),
        generic_params: Vec::new(),
    });
    assert_eq!(env.lookup_type("Local"), Some(40));
    assert!(env.lookup_type("Option").is_some());
    env.pop_scope();
    assert_eq!(env.lookup_type("Local"), None);
    assert!(env.lookup_type("Option").is_some());
}

#[test]
fn a_lone_module_declaration_is_a_program() {
    assert!(check_only("orbit probe\n\n", "t.gxc").is_ok());
    let code = "orbit probe";
    let tokens = tokenize(code, "t.gxc").unwrap();
    let program = parse(tokens, code, "t.gxc").unwrap();
    assert_eq!(program.module_decl.unwrap().path.segments, vec!["probe".to_string()]);
    assert!(program.items.is_empty());
}

#[test]
fn effectful_calls_need_the_effect() {
    let ok = "@effect(io)\nop do_io() => end\n@effect(io)\nop main() =>\n    do_io()\nend\n";
    assert!(errors_of(ok).is_empty());
    let bad = "@effect(io)\nop do_io() => end\nop main() =>\n    do_io()\nend\n";
    assert_eq!(errors_of(bad)[0].message, "call to 'do_io' requires effect 'io'");
}

#[test]
fn matches_cover_every_variant() {
    let full = "enum State =>\n    A\n    B\nend\nop main(s: State) =>\n    match s =>\n        State::A => 1\n        State::B => 2\n    end\nend\n";
    assert!(errors_of(full).is_empty());
    let wild = "enum State =>\n    A\n    B\nend\nop main(s: State) =>\n    match s =>\n        State::A => 1\n        _ => 2\n    end\nend\n";
    assert!(errors_of(wild).is_empty());
    let partial = "enum State =>\n    A\n    B\nend\nop main(s: State) =>\n    match s =>\n        State::B => 1\n    end\nend\n";
    assert_eq!(errors_of(partial)[0].message, "non-exhaustive match: variant 'A' not covered");
}

#[test]
fn nested_loops_checked_alone_report_nothing() {
    let code = "op f() =>\n    loop =>\n        loop =>\n            break\n        end\n        break\n    end\nend\n";
    let tokens = tokenize(code, "t.gxc").unwrap();
    let program = parse(tokens, code, "t.gxc").unwrap();
    let body = match &program.items[0] {
        Item::Op(op) => op.body.as_ref().unwrap(),
        _ => panic!("expected an op"),
    };
    let mut tc = galaxc::checker::TypeChecker::new();
    tc.check_stmt(&body.stmts[0]);
    assert!(tc.errors.is_empty());
}

#[test]
fn a_checker_resolves_a_path_to_an_enum() {
    let code = "enum State =>\n    A\n    B\nend\nop f(s: m::State, t: State) =>\nend\n";
    let tokens = tokenize(code, "t.gxc").unwrap();
    let program = parse(tokens, code, "t.gxc").unwrap();
    let mut tc = galaxc::checker::TypeChecker::new();
    tc.register_item(&program.items[0]);
    let params = match &program.items[1] {
        Item::Op(op) => &op.params,
        _ => panic!("expected an op"),
    };
    let by_path = tc.resolve_type_expr(&params[0].type_expr);
    let by_name = tc.resolve_type_expr(&params[1].type_expr);
    assert!(matches!(by_path, Type::Enum { .. }));
    assert!(matches!(by_name, Type::Enum { .. }));
}

#[test]
fn operators_group_by_precedence() {
    let code = "op f() =>\n    let x = 1 + 2 * 3\nend\n";
    let tokens = tokenize(code, "t.gxc").unwrap();
    let program = parse(tokens, code, "t.gxc").unwrap();
    let body = match &program.items[0] {
        Item::Op(op) => op.body.as_ref().unwrap(),
        _ => panic!("expected an op"),
    };
    match &body.stmts[0] {
        Stmt::Let(l) => match &l.value {
            Expr::Binary(b) => {
                assert!(matches!(b.op, BinaryOp::Add));
                assert!(matches!(&*b.left, Expr::Literal(_)));
                assert!(matches!(&*b.right, Expr::Binary(r) if matches!(r.op, BinaryOp::Mul)));
            },
            _ => panic!("expected a binary expression"),
        },
        _ => panic!("expected a let"),
    }
}

#[test]
fn nested_tuple_patterns_parse() {
    let code = "op f(p: Int) =>\n    match p =>\n        (a, (b, _), Point(c),) => 1\n        _ => 2\n    end\nend\n";
    let tokens = tokenize(code, "t.gxc").unwrap();
    let program = parse(tokens, code, "t.gxc").unwrap();
    let body = match &program.items[0] {
        Item::Op(op) => op.body.as_ref().unwrap(),
        _ => panic!("expected an op"),
    };
    match &body.stmts[0] {
        Stmt::Match(m) => match &m.arms[0].pattern {
            Pattern::Tuple { elements, .. } => {
                assert_eq!(elements.len(), 3);
                assert!(matches!(&elements[1], Pattern::Tuple { elements: inner, .. } if inner.len() == 2));
                assert!(matches!(&elements[2], Pattern::Variant { path, fields, .. } if path.len() == 1 && fields.len() == 1));
            },
            _ => panic!("expected a tuple pattern"),
        },
        _ => panic!("expected a match"),
    }
}
