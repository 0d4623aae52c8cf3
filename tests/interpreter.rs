use dolphin::ast::{Expr, Stmt, Stmts, Value};
use dolphin::check::type_check_stmt;
use dolphin::context::{Context, Effect, RunError, TypeError};
use dolphin::eval::{eval_expr, exec_stmt, run_program, FloatHost};
use dolphin::parse::{parse_line, parse_program};
use dolphin::show::render_line;
use dolphin::types::Type;

struct Doubles;

impl FloatHost for Doubles {
    fn float_of(&self, text: &str) -> u64 {
        text.parse::<f64>().map(|x| x.to_bits()).unwrap_or(0)
    }

    fn float_op(&self, op: char, a: u64, b: u64) -> u64 {
        let (x, y) = (f64::from_bits(a), f64::from_bits(b));
        let r = match op {
            '+' => x + y,
            '-' => x - y,
            '*' => x * y,
            _ => x / y,
        };
        r.to_bits()
    }

    fn float_text(&self, bits: u64) -> String {
        f64::from_bits(bits).to_string()
    }
}

const FUEL: u64 = 1000;

fn chars(s: &str) -> Vec<char> {
    s.chars().collect()
}

/// Runs `src` on `ctx` and gives the printed lines and the errors.
fn run_on(ctx: &mut Context, src: &str) -> (Vec<String>, Vec<RunError>) {
    let prog = parse_program(src).expect("program parses");
    run_program(&prog, ctx, &Doubles, FUEL);
    let mut lines = Vec::new();
    let mut errors = Vec::new();
    for e in ctx.take_effects() {
        match e {
            Effect::Print(vs) => lines.push(render_line(&vs, &ctx.heap, &Doubles)),
            Effect::Error(x) => errors.push(x),
            _ => {}
        }
    }
    (lines, errors)
}

fn run(src: &str) -> (Vec<String>, Vec<RunError>) {
    let mut ctx = Context::new();
    run_on(&mut ctx, src)
}

#[test]
fn int_sum_is_printed() {
    let (out, errs) = run("var x:int = 2 + 3\nprint(x)");
    assert_eq!(out, vec!["5".to_string()]);
    assert!(errs.is_empty());
}

#[test]
fn float_sum_is_printed() {
    let (out, errs) = run("var f:float = 1.5 + 2.5\nprint(f)");
    assert_eq!(out, vec!["4".to_string()]);
    assert!(errs.is_empty());
}

#[test]
fn if_true_takes_first_branch() {
    let (out, _) = run("if true then\nprint(\"yes\")\nelse\nprint(\"no\")\nend");
    assert_eq!(out, vec!["yes".to_string()]);
}

#[test]
fn if_false_takes_second_branch() {
    let (out, _) = run("if false then\nprint(\"yes\")\nelse\nprint(\"no\")\nend");
    assert_eq!(out, vec!["no".to_string()]);
}

#[test]
fn untaken_branch_is_still_checked() {
    let (out, errs) = run("if true then\nprint(1)\nelse\nprint(z)\nend");
    assert!(out.is_empty());
    assert_eq!(errs, vec![RunError::Type(TypeError::UnknownVar)]);
}

#[test]
fn non_bool_loop_condition_is_rejected() {
    let (out, errs) = run("var i:int = 0\nwhile i + 1 do\nprint(i)\nend");
    assert!(out.is_empty());
    assert_eq!(errs, vec![RunError::Type(TypeError::CondNotBool)]);
}

#[test]
fn loop_header_with_then_is_a_syntax_error() {
    let r = parse_program("var i:int = 0\nwhile i + 1 then\nprint(i)\nend");
    assert_eq!(r.unwrap_err().line, 1);
}

#[test]
fn mismatched_declaration_binds_nothing() {
    let mut ctx = Context::new();
    let (out, errs) = run_on(&mut ctx, "var y:int = \"hi\"");
    assert!(out.is_empty());
    assert_eq!(errs, vec![RunError::Type(TypeError::Mismatch)]);
    assert!(ctx.get_var("y").is_none());
    assert!(ctx.get_type("y").is_none());
}

#[test]
fn declaration_binds_value_and_type() {
    let mut ctx = Context::new();
    let (_, errs) = run_on(&mut ctx, "var s:str = \"a b\"\nvar n:int = 40 + 2");
    assert!(errs.is_empty());
    assert_eq!(ctx.get_var("n"), Some(Value::Int(42)));
    assert_eq!(ctx.get_type("n"), Some(Type::Int));
    assert_eq!(ctx.get_var("s"), Some(Value::Str(chars("a b"))));
    assert_eq!(ctx.get_type("s"), Some(Type::Str));
}

#[test]
fn loop_runs_while_condition_holds() {
    let (out, _) = run("var go:bool = true\nwhile go do\nprint(1)\nvar go:bool = false\nend\nprint(2)");
    assert_eq!(out, vec!["1".to_string(), "2".to_string()]);
}

#[test]
fn loop_with_false_condition_runs_zero_times() {
    let (out, _) = run("while false do\nprint(1)\nend\nprint(2)");
    assert_eq!(out, vec!["2".to_string()]);
}

#[test]
fn exit_in_loop_ends_the_run() {
    let mut ctx = Context::new();
    let prog = parse_program("while true do\nexit\nprint(1)\nend\nprint(2)").unwrap();
    assert!(run_program(&prog, &mut ctx, &Doubles, FUEL));
    assert!(ctx.take_effects().is_empty());
}

#[test]
fn endless_loop_runs_out_of_steps() {
    let (out, errs) = run("while true do\nprint(1)\nend");
    assert_eq!(out.len(), FUEL as usize);
    assert_eq!(errs, vec![RunError::OutOfSteps]);
}

#[test]
fn aliased_list_sees_mutation() {
    let mut ctx = Context::new();
    let h = ctx.new_list(vec![Value::Int(1), Value::Int(2), Value::Int(3)]).unwrap();
    let t = Type::List(Box::new(Type::Int));
    ctx.define("a", Type::List(Box::new(Type::Int)), Value::List(h));
    ctx.define("b", t, Value::List(h));
    assert!(ctx.list_push(h, Value::Int(4)));
    let (out, errs) = run_on(&mut ctx, "print(b)\nprint(a)");
    assert!(errs.is_empty());
    assert_eq!(out, vec!["[1, 2, 3, 4]".to_string(), "[1, 2, 3, 4]".to_string()]);
    assert_eq!(ctx.list_items(h).unwrap().len(), 4);
}

#[test]
fn list_cannot_hold_a_later_list() {
    let mut ctx = Context::new();
    let h = ctx.new_list(vec![]).unwrap();
    let k = ctx.new_list(vec![Value::List(h)]).unwrap();
    assert!(!ctx.list_push(h, Value::List(k)));
    assert!(ctx.new_list(vec![Value::List(9)]).is_none());
}

#[test]
fn list_type_follows_first_item() {
    let mut ctx = Context::new();
    let h = ctx.new_list(vec![]).unwrap();
    assert_eq!(Value::List(h).get_type(&ctx.heap), Type::List(Box::new(Type::Void)));
    ctx.list_push(h, Value::Bool(true));
    assert_eq!(Value::List(h).get_type(&ctx.heap), Type::List(Box::new(Type::Bool)));
}

#[test]
fn equal_contexts_give_equal_output() {
    let src = "var a:int = 1\nvar b:int = a + 2\nprint(a, b)\nprint(\"x\")";
    let (first, _) = run(src);
    let (second, _) = run(src);
    assert_eq!(first, second);
    assert_eq!(first, vec!["1 3".to_string(), "x".to_string()]);
}

#[test]
fn interactive_line_splits_on_semicolons() {
    let stmts = parse_line("var a:int = 7;  ; print(a)").unwrap();
    assert_eq!(stmts.len(), 2);
    let mut ctx = Context::new();
    run_program(&stmts, &mut ctx, &Doubles, FUEL);
    let effects = ctx.take_effects();
    assert_eq!(effects, vec![Effect::Print(vec![Value::Int(7)])]);
}

#[test]
fn block_in_interactive_line_is_a_syntax_error() {
    assert_eq!(parse_line("print(1); while true do").unwrap_err().line, 1);
}

#[test]
fn missing_end_is_a_syntax_error() {
    assert_eq!(parse_program("print(1)\nif true then\nprint(2)").unwrap_err().line, 1);
}

#[test]
fn comments_and_blank_lines_are_skipped() {
    let prog = parse_program("# note\n\n   print(1)  \n\t\n").unwrap();
    assert_eq!(prog.len(), 1);
}

#[test]
fn nested_blocks_find_their_own_end() {
    let (out, _) = run("if true then\nif false then\nprint(1)\nend\nprint(2)\nend\nprint(3)");
    assert_eq!(out, vec!["2".to_string(), "3".to_string()]);
}

#[test]
fn division_by_zero_is_an_error() {
    let ctx = Context::new();
    let e = Expr::BinOp(Box::new(Expr::Literal(Value::Int(7))), '/', Box::new(Expr::Literal(Value::Int(0))));
    assert_eq!(eval_expr(&e, &ctx, &Doubles), Err(RunError::DivisionByZero));
}

#[test]
fn integer_operators_apply() {
    let ctx = Context::new();
    let op = |a: i64, o: char, b: i64| {
        eval_expr(&Expr::BinOp(Box::new(Expr::Literal(Value::Int(a))), o, Box::new(Expr::Literal(Value::Int(b)))), &ctx, &Doubles)
    };
    assert_eq!(op(-7, '/', 2), Ok(Value::Int(-3)));
    assert_eq!(op(7, '-', 10), Ok(Value::Int(-3)));
    assert_eq!(op(6, '*', -7), Ok(Value::Int(-42)));
    assert_eq!(op(i64::MAX, '+', 1), Err(RunError::Overflow));
    assert_eq!(op(i64::MIN, '/', -1), Err(RunError::Overflow));
    assert_eq!(op(1, '%', 1), Err(RunError::NoValue));
}

#[test]
fn mixed_operands_have_no_value() {
    let mut ctx = Context::new();
    ctx.define("s", Type::Str, Value::Str(chars("a")));
    let e = Expr::BinOp(Box::new(Expr::Var(chars("s"))), '+', Box::new(Expr::Literal(Value::Int(1))));
    assert_eq!(eval_expr(&e, &ctx, &Doubles), Err(RunError::NoValue));
}

#[test]
fn printing_a_call_is_a_type_error() {
    let (out, errs) = run("print(f(1))");
    assert!(out.is_empty());
    assert_eq!(errs, vec![RunError::Type(TypeError::CallNotTyped)]);
}

#[test]
fn binop_of_different_types_is_rejected() {
    let (_, errs) = run("var x:int = 1 + 1.5");
    assert_eq!(errs, vec![RunError::Type(TypeError::BinOpMismatch)]);
}

#[test]
fn function_definition_is_recorded_and_scoped() {
    let mut ctx = Context::new();
    let (_, errs) = run_on(&mut ctx, "fn add(a:int,b:int)->int\nprint(a + b)\nend");
    assert!(errs.is_empty());
    assert!(ctx.has_func("add"));
    assert!(ctx.get_type("a").is_none());
}

#[test]
fn setshell_changes_the_path() {
    let mut ctx = Context::new();
    assert_eq!(ctx.shell_path(), "/bin/sh");
    run_on(&mut ctx, "setshell /bin/bash");
    assert_eq!(ctx.shell_path(), "/bin/bash");
}

#[test]
fn shell_logs_the_command() {
    let mut ctx = Context::new();
    let prog = parse_program("shell echo \"a b\" c\nclear\nhelp").unwrap();
    run_program(&prog, &mut ctx, &Doubles, FUEL);
    let effects = ctx.take_effects();
    assert_eq!(effects, vec![Effect::Run(vec![chars("echo"), chars("\"a b\""), chars("c")]), Effect::Clear, Effect::Help]);
}

#[test]
fn empty_shell_stops() {
    let mut ctx = Context::new();
    assert!(exec_stmt(&Stmt::Shell(vec![]), &mut ctx, &Doubles, FUEL));
}

#[test]
fn type_check_rejects_unknown_variable() {
    let mut ctx = Context::new();
    let s = Stmt::ExprStmt(Expr::Var(chars("nope")));
    assert_eq!(type_check_stmt(&s, &mut ctx), Err(TypeError::UnknownVar));
    let w = Stmt::While(Expr::Literal(Value::Bool(true)), Box::new(Stmts::Nil));
    assert_eq!(type_check_stmt(&w, &mut ctx), Ok(()));
}

#[test]
fn unbound_value_in_print_is_a_runtime_error() {
    let mut ctx = Context::new();
    ctx.define("ghost", Type::Int, Value::Int(0));
    ctx.vars.clear();
    let (out, errs) = run_on(&mut ctx, "print(ghost)");
    assert!(out.is_empty());
    assert_eq!(errs, vec![RunError::NoValue]);
}
