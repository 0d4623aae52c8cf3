use dolphin::ast::{Expr, Exprs, Value};
use dolphin::lex::tokenize;
use dolphin::num::{int_of, is_float_text};
use dolphin::parse::parse_expr;
use dolphin::show::decimal_chars;
use dolphin::types::{parse_type, Type};

fn chars(s: &str) -> Vec<char> {
    s.chars().collect()
}

#[test]
fn tokenize_keeps_quoted_spaces() {
    assert_eq!(tokenize("ls  -l \"my dir\" x"), vec!["ls", "-l", "\"my dir\"", "x"]);
    assert_eq!(tokenize("a \"b c"), vec!["a", "\"b c"]);
    assert!(tokenize("   ").is_empty());
}

#[test]
fn parse_type_ignores_case() {
    assert_eq!(parse_type("INT"), Type::Int);
    assert_eq!(parse_type("Float"), Type::Float);
    assert_eq!(parse_type("bool"), Type::Bool);
    assert_eq!(parse_type("String"), Type::Str);
    assert_eq!(parse_type("str"), Type::Str);
    assert_eq!(parse_type("List<List<Int>>"), Type::List(Box::new(Type::List(Box::new(Type::Int)))));
    assert_eq!(parse_type("list<>"), Type::List(Box::new(Type::Void)));
    assert_eq!(parse_type("thing"), Type::Void);
}

#[test]
fn parse_expr_literals() {
    assert!(matches!(parse_expr(" \"hi there\" "), Expr::Literal(Value::Str(s)) if s == chars("hi there")));
    assert!(matches!(parse_expr("true"), Expr::Literal(Value::Bool(true))));
    assert!(matches!(parse_expr("-12"), Expr::Literal(Value::Int(-12))));
    assert!(matches!(parse_expr("1.5"), Expr::FloatLit(t) if t == chars("1.5")));
    assert!(matches!(parse_expr("x1"), Expr::Var(n) if n == chars("x1")));
}

#[test]
fn parse_expr_splits_at_first_plus() {
    match parse_expr("a + b + 1") {
        Expr::BinOp(l, '+', r) => {
            assert!(matches!(*l, Expr::Var(ref n) if *n == chars("a")));
            assert!(matches!(*r, Expr::BinOp(_, '+', _)));
        }
        other => panic!("unexpected {:?}", other),
    }
}

#[test]
fn parse_expr_call_arguments() {
    match parse_expr("f(1, x)") {
        Expr::Call(n, args) => {
            assert_eq!(n, chars("f"));
            match *args {
                Exprs::Cons(a, rest) => {
                    assert!(matches!(*a, Expr::Literal(Value::Int(1))));
                    assert!(matches!(*rest, Exprs::Cons(_, _)));
                }
                Exprs::Nil => panic!("no arguments"),
            }
        }
        other => panic!("unexpected {:?}", other),
    }
    assert!(matches!(parse_expr("g()"), Expr::Call(_, a) if matches!(*a, Exprs::Nil)));
}

#[test]
fn integer_literals_in_range_only() {
    assert_eq!(int_of(&chars("9223372036854775807")), Some(i64::MAX));
    assert_eq!(int_of(&chars("-9223372036854775808")), Some(i64::MIN));
    assert_eq!(int_of(&chars("9223372036854775808")), None);
    assert_eq!(int_of(&chars("+5")), Some(5));
    assert_eq!(int_of(&chars("-")), None);
    assert_eq!(int_of(&chars("1a")), None);
}

#[test]
fn float_literals_need_a_point() {
    assert!(is_float_text(&chars("1.5")));
    assert!(is_float_text(&chars("-.5")));
    assert!(is_float_text(&chars("2.")));
    assert!(is_float_text(&chars("1.5e-3")));
    assert!(!is_float_text(&chars("1e5")));
    assert!(!is_float_text(&chars(".")));
    assert!(!is_float_text(&chars("1.2.3")));
    assert!(!is_float_text(&chars("a.b")));
}

#[test]
fn decimal_text_of_integers() {
    assert_eq!(decimal_chars(0), chars("0"));
    assert_eq!(decimal_chars(-305), chars("-305"));
    assert_eq!(decimal_chars(i64::MIN), chars("-9223372036854775808"));
}
