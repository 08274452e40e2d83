use galaxc::ast::{Expr, IdentExpr, BinaryExpr, BinaryOp, LiteralExpr, LiteralValue, Pattern};
use galaxc::diagnostics::Span;
use galaxc::ir::c_text::{expr_to_c, infer_c_type, pattern_to_condition};
use galaxc::ir::float_text::float_text;
use galaxc::parser::literal::{
    char_literal, float_text_ok, int_literal, parse_signed, remove_underscores, trim_quote_marks,
    unescape_string,
};
use galaxc::text::{i64_to_text, u64_to_text};

fn sp() -> Span {
    Span::new(0, 0)
}

fn int_expr(n: i64) -> Expr {
    Expr::Literal(LiteralExpr { value: LiteralValue::Int(n), span: sp() })
}

#[test]
fn integer_literal_values() {
    assert_eq!(int_literal("42"), Some(42));
    assert_eq!(int_literal("0xFF"), Some(255));
    assert_eq!(int_literal("0b1010"), Some(10));
    assert_eq!(int_literal("0o17"), Some(15));
    assert_eq!(int_literal("1_000_000"), Some(1_000_000));
    assert_eq!(int_literal("9223372036854775807"), Some(i64::MAX));
    assert_eq!(int_literal("9223372036854775808"), None);
    assert_eq!(int_literal("0x"), None);
}

#[test]
fn signed_parsing_follows_from_str_radix() {
    assert_eq!(parse_signed("-128", 10), Some(-128));
    assert_eq!(parse_signed("+7", 10), Some(7));
    assert_eq!(parse_signed("-", 10), None);
    assert_eq!(parse_signed("z", 36), Some(35));
    assert_eq!(parse_signed("-9223372036854775808", 10), Some(i64::MIN));
    assert_eq!(parse_signed("12a", 10), None);
}

#[test]
fn underscores_are_removed() {
    assert_eq!(remove_underscores("1_0_0"), "100");
    assert_eq!(remove_underscores("___"), "");
}

#[test]
fn string_escapes() {
    assert_eq!(unescape_string("a\\tb\\n"), "a\tb\n");
    assert_eq!(unescape_string("q\\\"x\\\\"), "q\"x\\");
    assert_eq!(unescape_string("\\q"), "\\q");
    assert_eq!(unescape_string("end\\"), "end\\");
    assert_eq!(unescape_string("é\\0"), "é\0");
}

#[test]
fn char_literal_bodies() {
    assert_eq!(char_literal("a"), 'a');
    assert_eq!(char_literal("\\n"), '\n');
    assert_eq!(char_literal("\\'"), '\'');
    assert_eq!(char_literal("\\x"), '\\');
    assert_eq!(char_literal(""), '\0');
}

#[test]
fn quotes_are_trimmed() {
    assert_eq!(trim_quote_marks("\"hi\""), "hi");
    assert_eq!(trim_quote_marks("\"\"x\"\""), "x");
    assert_eq!(trim_quote_marks("plain"), "plain");
}

#[test]
fn float_syntax() {
    assert!(float_text_ok("3.14"));
    assert!(float_text_ok("1.0e10"));
    assert!(float_text_ok("2.5E-3"));
    assert!(float_text_ok("inf"));
    assert!(!float_text_ok("1.2.3"));
    assert!(!float_text_ok(""));
}

#[test]
fn float_rendering() {
    assert_eq!(float_text("3.14", true), "3.14");
    assert_eq!(float_text("1.0e10", true), "10000000000.0");
    assert_eq!(float_text("1.0e10", false), "10000000000");
    assert_eq!(float_text("2.5E-3", true), "0.0025");
    assert_eq!(float_text("007.500", true), "7.5");
    assert_eq!(float_text("0.0", true), "0.0");
}

#[test]
fn decimal_texts() {
    assert_eq!(u64_to_text(0), "0");
    assert_eq!(u64_to_text(18446744073709551615), "18446744073709551615");
    assert_eq!(i64_to_text(-42), "-42");
    assert_eq!(i64_to_text(i64::MIN), "-9223372036854775808");
}

#[test]
fn c_text_of_expressions() {
    let sum = Expr::Binary(BinaryExpr {
        left: Box::new(Expr::Identifier(IdentExpr { name: "a".to_string(), span: sp() })),
        op: BinaryOp::Add,
        right: Box::new(int_expr(-3)),
        span: sp(),
    });
    assert_eq!(expr_to_c(&sum), "(a + -3LL)");
    assert_eq!(infer_c_type(&sum), "int64_t");
    let cmp = Expr::Binary(BinaryExpr {
        left: Box::new(int_expr(1)),
        op: BinaryOp::LtEq,
        right: Box::new(int_expr(2)),
        span: sp(),
    });
    assert_eq!(expr_to_c(&cmp), "(1LL <= 2LL)");
    assert_eq!(infer_c_type(&cmp), "bool");
}

#[test]
fn match_conditions() {
    let variant = Pattern::Variant {
        path: vec!["State".to_string(), "Active".to_string()],
        fields: Vec::new(),
        span: sp(),
    };
    assert_eq!(pattern_to_condition("s", &variant), "s.tag == GXC_TAG_ACTIVE");
    let ch = Pattern::Literal { value: LiteralValue::Char('x'), span: sp() };
    assert_eq!(pattern_to_condition("c", &ch), "c == 'x'");
    let n = Pattern::Literal { value: LiteralValue::Int(-5), span: sp() };
    assert_eq!(pattern_to_condition("n", &n), "n == -5");
    let wild = Pattern::Wildcard { span: sp() };
    assert_eq!(pattern_to_condition("n", &wild), "1");
}
