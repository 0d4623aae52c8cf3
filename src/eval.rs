//! The evaluator: expressions to values, statements to effects on the
//! context.
use vstd::prelude::*;
use crate::ast::{copy_chars, copy_texts, texts_view, Expr, Exprs, Stmt, Stmts, Value, ValueV};
use crate::check::{chk_stmt, type_check_stmt};
use crate::context::{values_view, Context, Effect, EffectV, RunError, World};
use crate::env::{amap, find_last, set_entry};
use crate::text::string_of;

verus! {

/// What only the host can do with floats, which are held as the bit
/// patterns of IEEE doubles.
pub trait FloatHost {
    /// The float that a literal such as `1.5` denotes.
    fn float_of(&self, text: &str) -> u64;

    /// `a op b` for `op` among `+ - * /`.
    fn float_op(&self, op: char, a: u64, b: u64) -> u64;

    /// The display form of a float.
    fn float_text(&self, bits: u64) -> String;
}

/// Whether `op` is an operator that the evaluator applies.
pub open spec fn is_op(op: char) -> bool {
    op == '+' || op == '-' || op == '*' || op == '/'
}

pub open spec fn abs(x: int) -> int {
    if x < 0 {
        -x
    } else {
        x
    }
}

/// Integer division rounding toward zero.
pub open spec fn trunc_div(p: int, q: int) -> int {
    let a = abs(p) / abs(q);
    if (p < 0) != (q < 0) {
        -a
    } else {
        a
    }
}

/// `p op q` on 64-bit integers.
pub open spec fn int_op(op: char, p: i64, q: i64) -> Result<ValueV, RunError> {
    let r: int = if op == '+' {
        p + q
    } else if op == '-' {
        p - q
    } else if op == '*' {
        p * q
    } else {
        trunc_div(p as int, q as int)
    };
    if !is_op(op) {
        Err(RunError::NoValue)
    } else if op == '/' && q == 0 {
        Err(RunError::DivisionByZero)
    } else if i64::MIN <= r <= i64::MAX {
        Ok(ValueV::Int(r as i64))
    } else {
        Err(RunError::Overflow)
    }
}

/// The value of an expression under the variables `vars`: a variable
/// without a value, a call, or an operator on other than two integers or
/// two floats has no value.
pub open spec fn eval(e: Expr, vars: Map<Seq<char>, ValueV>) -> Result<ValueV, RunError>
    decreases e,
{
    match e {
        Expr::Literal(v) => Ok(v@),
        Expr::FloatLit(_) => Ok(ValueV::Float),
        Expr::Var(n) => if vars.contains_key(n@) {
            Ok(vars[n@])
        } else {
            Err(RunError::NoValue)
        },
        Expr::BinOp(a, op, b) => match eval(*a, vars) {
            Err(x) => Err(x),
            Ok(x) => match eval(*b, vars) {
                Err(y) => Err(y),
                Ok(y) => match (x, y) {
                    (ValueV::Int(p), ValueV::Int(q)) => int_op(op, p, q),
                    (ValueV::Float, ValueV::Float) => if is_op(op) {
                        Ok(ValueV::Float)
                    } else {
                        Err(RunError::NoValue)
                    },
                    _ => Err(RunError::NoValue),
                },
            },
        },
        Expr::Call(_, _) => Err(RunError::NoValue),
    }
}

/// The values of `es` in order, or the first failure.
pub open spec fn eval_all(es: Exprs, vars: Map<Seq<char>, ValueV>) -> Result<Seq<ValueV>, RunError>
    decreases es,
{
    match es {
        Exprs::Nil => Ok(Seq::empty()),
        Exprs::Cons(e, rest) => match eval(*e, vars) {
            Err(x) => Err(x),
            Ok(v) => match eval_all(*rest, vars) {
                Err(x) => Err(x),
                Ok(vs) => Ok(seq![v] + vs),
            },
        },
    }
}

/// Whether an evaluation result agrees with its view.
pub open spec fn agrees(r: Result<Value, RunError>, s: Result<ValueV, RunError>) -> bool {
    match (r, s) {
        (Ok(v), Ok(w)) => v@ == w,
        (Err(x), Err(y)) => x == y,
        _ => false,
    }
}

fn int_apply(op: char, p: i64, q: i64) -> (r: Result<Value, RunError>)
    ensures
        agrees(r, int_op(op, p, q)),
{
    if !(op == '+' || op == '-' || op == '*' || op == '/') {
        return Err(RunError::NoValue);
    }
    if op == '/' && q == 0 {
        return Err(RunError::DivisionByZero);
    }
    let a = p as i128;
    let b = q as i128;
    let r: i128 = if op == '+' {
        a + b
    } else if op == '-' {
        a - b
    } else if op == '*' {
        assert(-0x4000_0000_0000_0000_0000_0000_0000_0000 <= a * b <= 0x4000_0000_0000_0000_0000_0000_0000_0000) by (nonlinear_arith)
            requires
                -0x8000_0000_0000_0000 <= a <= 0x7fff_ffff_ffff_ffff,
                -0x8000_0000_0000_0000 <= b <= 0x7fff_ffff_ffff_ffff,
        ;
        a * b
    } else {
        let ua: i128 = if a < 0 { -a } else { a };
        let ub: i128 = if b < 0 { -b } else { b };
        let d = ua / ub;
        if (a < 0) != (b < 0) { -d } else { d }
    };
    if r < -0x8000_0000_0000_0000 || r > 0x7fff_ffff_ffff_ffff {
        Err(RunError::Overflow)
    } else {
        Ok(Value::Int(r as i64))
    }
}

/// Evaluates `e` against the context's variables.
pub fn eval_expr<H: FloatHost>(e: &Expr, ctx: &Context, host: &H) -> (r: Result<Value, RunError>)
    ensures
        agrees(r, eval(*e, ctx.view().vars)),
    decreases e,
{
    match e {
        Expr::Literal(v) => Ok(v.copy()),
        Expr::FloatLit(t) => Ok(Value::Float(host.float_of(string_of(t).as_str()))),
        Expr::Var(n) => match find_last(&ctx.vars, n) {
            Some(j) => Ok(ctx.vars[j].1.copy()),
            None => Err(RunError::NoValue),
        },
        Expr::BinOp(a, op, b) => {
            let x = match eval_expr(a, ctx, host) {
                Ok(x) => x,
                Err(y) => { return Err(y); },
            };
            let y = match eval_expr(b, ctx, host) {
                Ok(y) => y,
                Err(z) => { return Err(z); },
            };
            match (x, y) {
                (Value::Int(p), Value::Int(q)) => int_apply(*op, p, q),
                (Value::Float(p), Value::Float(q)) => if *op == '+' || *op == '-' || *op == '*' || *op == '/' {
                    Ok(Value::Float(host.float_op(*op, p, q)))
                } else {
                    Err(RunError::NoValue)
                },
                _ => Err(RunError::NoValue),
            }
        },
        Expr::Call(_, _) => Err(RunError::NoValue),
    }
}

/// Evaluates `es` in order, stopping at the first failure.
pub fn eval_exprs<H: FloatHost>(es: &Exprs, ctx: &Context, host: &H) -> (r: Result<Vec<Value>, RunError>)
    ensures
        match (r, eval_all(*es, ctx.view().vars)) {
            (Ok(a), Ok(b)) => values_view(a@) == b,
            (Err(x), Err(y)) => x == y,
            _ => false,
        },
    decreases es,
{
    match es {
        Exprs::Nil => {
            let v: Vec<Value> = Vec::new();
            assert(values_view(v@) =~= Seq::<ValueV>::empty());
            Ok(v)
        },
        Exprs::Cons(e, rest) => {
            let v = match eval_expr(e, ctx, host) {
                Ok(v) => v,
                Err(x) => { return Err(x); },
            };
            let mut vs = match eval_exprs(rest, ctx, host) {
                Ok(vs) => vs,
                Err(x) => { return Err(x); },
            };
            let ghost tail = vs@;
            vs.insert(0, v);
            assert(values_view(vs@) =~= seq![v@] + values_view(tail));
            Ok(vs)
        },
    }
}

/// `w` with one more effect at the end of its log.
pub open spec fn emit(w: World, e: EffectV) -> World {
    World { effects: w.effects.push(e), ..w }
}

/// Runs a statement on the world `w` with the step budget `fuel`, giving
/// the new world and whether the run must stop. The statement is type
/// checked first; a failure is logged and nothing else happens.
pub open spec fn run(s: Stmt, w: World, fuel: nat) -> (World, bool)
    decreases fuel, s, 0nat,
{
    let (ts, res) = chk_stmt(s, (w.types, w.funcs), w.heap);
    let w1 = World { types: ts.0, funcs: ts.1, ..w };
    match res {
        Err(x) => (emit(w1, EffectV::Error(RunError::Type(x))), false),
        Ok(_) => match s {
            Stmt::VarDef(n, _, e) => match eval(e, w1.vars) {
                Ok(v) => (World { vars: w1.vars.insert(n@, v), ..w1 }, false),
                Err(RunError::NoValue) => (w1, false),
                Err(x) => (emit(w1, EffectV::Error(x)), false),
            },
            Stmt::Print(es) => match eval_all(*es, w1.vars) {
                Ok(vs) => (emit(w1, EffectV::Print(vs)), false),
                Err(x) => (emit(w1, EffectV::Error(x)), false),
            },
            Stmt::Shell(args) => if args@.len() == 0 {
                (w1, true)
            } else {
                (emit(w1, EffectV::Run(texts_view(args@))), false)
            },
            Stmt::SetShell(p) => (World { shell: p@, ..w1 }, false),
            Stmt::If(c, a, b) => match eval(c, w1.vars) {
                Ok(ValueV::Bool(true)) => run_list(*a, w1, fuel),
                Err(RunError::NoValue) | Ok(_) => run_list(*b, w1, fuel),
                Err(x) => (emit(w1, EffectV::Error(x)), false),
            },
            Stmt::While(c, body) => run_loop(c, *body, w1, fuel),
            Stmt::FuncDef(_, _, _, _) => (w1, false),
            Stmt::Exit => (w1, true),
            Stmt::Clear => (emit(w1, EffectV::Clear), false),
            Stmt::Help => (emit(w1, EffectV::Help), false),
            Stmt::ExprStmt(e) => match eval(e, w1.vars) {
                Err(RunError::NoValue) | Ok(_) => (w1, false),
                Err(x) => (emit(w1, EffectV::Error(x)), false),
            },
        },
    }
}

/// Runs statements in order until one asks to stop.
pub open spec fn run_list(ss: Stmts, w: World, fuel: nat) -> (World, bool)
    decreases fuel, ss, 0nat,
{
    match ss {
        Stmts::Nil => (w, false),
        Stmts::Cons(s, rest) => {
            let (w1, stop) = run(*s, w, fuel);
            if stop {
                (w1, true)
            } else {
                run_list(*rest, w1, fuel)
            }
        },
    }
}

/// Runs a loop: each round takes one step of the budget; the loop goes
/// on while the condition is `true`, and ends the run when the body asks
/// to stop or the budget is spent.
pub open spec fn run_loop(c: Expr, body: Stmts, w: World, fuel: nat) -> (World, bool)
    decreases fuel, body, 1nat,
{
    if fuel == 0 {
        (emit(w, EffectV::Error(RunError::OutOfSteps)), true)
    } else {
        match eval(c, w.vars) {
            Ok(ValueV::Bool(true)) => {
                let (w1, stop) = run_list(body, w, (fuel - 1) as nat);
                if stop {
                    (w1, true)
                } else {
                    run_loop(c, body, w1, (fuel - 1) as nat)
                }
            },
            Err(RunError::NoValue) | Ok(_) => (w, false),
            Err(x) => (emit(w, EffectV::Error(x)), false),
        }
    }
}

fn log_effect(ctx: &mut Context, e: Effect)
    ensures
        final(ctx).view() == emit(old(ctx).view(), e@),
{
    ctx.effects.push(e);
    assert(ctx.view().effects =~= old(ctx).view().effects.push(e@));
    assert(ctx.view() =~= emit(old(ctx).view(), e@));
}

/// Executes one statement: checks it, then runs it. Returns whether the
/// run must stop.
pub fn exec_stmt<H: FloatHost>(stmt: &Stmt, ctx: &mut Context, host: &H, fuel: u64) -> (stop: bool)
    ensures
        (final(ctx).view(), stop) == run(*stmt, old(ctx).view(), fuel as nat),
    decreases fuel, stmt, 0nat,
{
    if let Err(x) = type_check_stmt(stmt, ctx) {
        log_effect(ctx, Effect::Error(RunError::Type(x)));
        return false;
    }
    let ghost w1 = ctx.view();
    match stmt {
        Stmt::VarDef(n, _, e) => {
            match eval_expr(e, ctx, host) {
                Ok(v) => {
                    let ghost before = amap(ctx.vars@);
                    let ghost vv = v@;
                    set_entry(&mut ctx.vars, copy_chars(n), v);
                    assert(ctx.view().vars =~= w1.vars.insert(n@, vv));
                    assert(ctx.view() =~= (World { vars: w1.vars.insert(n@, vv), ..w1 }));
                },
                Err(RunError::NoValue) => {},
                Err(x) => log_effect(ctx, Effect::Error(x)),
            }
            false
        },
        Stmt::Print(es) => {
            match eval_exprs(es, ctx, host) {
                Ok(vs) => log_effect(ctx, Effect::Print(vs)),
                Err(x) => log_effect(ctx, Effect::Error(x)),
            }
            false
        },
        Stmt::Shell(args) => {
            if args.len() == 0 {
                return true;
            }
            log_effect(ctx, Effect::Run(copy_texts(args)));
            false
        },
        Stmt::SetShell(p) => {
            ctx.shell = copy_chars(p);
            assert(ctx.view() =~= (World { shell: p@, ..w1 }));
            false
        },
        Stmt::If(c, a, b) => {
            match eval_expr(c, ctx, host) {
                Ok(Value::Bool(true)) => exec_list(a, ctx, host, fuel),
                Err(RunError::NoValue) | Ok(_) => exec_list(b, ctx, host, fuel),
                Err(x) => {
                    log_effect(ctx, Effect::Error(x));
                    false
                },
            }
        },
        Stmt::While(c, body) => exec_loop(c, body, ctx, host, fuel),
        Stmt::FuncDef(_, _, _, _) => false,
        Stmt::Exit => true,
        Stmt::Clear => {
            log_effect(ctx, Effect::Clear);
            false
        },
        Stmt::Help => {
            log_effect(ctx, Effect::Help);
            false
        },
        Stmt::ExprStmt(e) => {
            match eval_expr(e, ctx, host) {
                Err(RunError::NoValue) | Ok(_) => {},
                Err(x) => log_effect(ctx, Effect::Error(x)),
            }
            false
        },
    }
}

/// Executes statements in order until one asks to stop.
pub fn exec_list<H: FloatHost>(ss: &Stmts, ctx: &mut Context, host: &H, fuel: u64) -> (stop: bool)
    ensures
        (final(ctx).view(), stop) == run_list(*ss, old(ctx).view(), fuel as nat),
    decreases fuel, ss, 0nat,
{
    match ss {
        Stmts::Nil => false,
        Stmts::Cons(s, rest) => {
            if exec_stmt(s, ctx, host, fuel) {
                return true;
            }
            exec_list(rest, ctx, host, fuel)
        },
    }
}

fn exec_loop<H: FloatHost>(c: &Expr, body: &Stmts, ctx: &mut Context, host: &H, fuel: u64) -> (stop: bool)
    ensures
        (final(ctx).view(), stop) == run_loop(*c, *body, old(ctx).view(), fuel as nat),
    decreases fuel, body, 1nat,
{
    if fuel == 0 {
        log_effect(ctx, Effect::Error(RunError::OutOfSteps));
        return true;
    }
    match eval_expr(c, ctx, host) {
        Ok(Value::Bool(true)) => {
            if exec_list(body, ctx, host, fuel - 1) {
                return true;
            }
            exec_loop(c, body, ctx, host, fuel - 1)
        },
        Err(RunError::NoValue) | Ok(_) => false,
        Err(x) => {
            log_effect(ctx, Effect::Error(x));
            false
        },
    }
}

/// Runs a program's statements in order until one asks to stop.
pub open spec fn run_seq(ss: Seq<Stmt>, w: World, fuel: nat) -> (World, bool)
    decreases ss.len(),
{
    if ss.len() == 0 {
        (w, false)
    } else {
        let (w1, stop) = run(ss[0], w, fuel);
        if stop {
            (w1, true)
        } else {
            run_seq(ss.drop_first(), w1, fuel)
        }
    }
}

/// Executes a program's statements in order until one asks to stop;
/// returns whether one did.
pub fn run_program<H: FloatHost>(prog: &Vec<Stmt>, ctx: &mut Context, host: &H, fuel: u64) -> (stop: bool)
    ensures
        (final(ctx).view(), stop) == run_seq(prog@, old(ctx).view(), fuel as nat),
{
    let mut i: usize = 0;
    assert(prog@.subrange(0, prog@.len() as int) == prog@);
    while i < prog.len()
        invariant
            i <= prog.len(),
            run_seq(prog@.subrange(i as int, prog@.len() as int), ctx.view(), fuel as nat) == run_seq(
                prog@,
                old(ctx).view(),
                fuel as nat,
            ),
        decreases prog.len() - i,
    {
        let ghost rest = prog@.subrange(i as int, prog@.len() as int);
        assert(rest[0] == prog@[i as int]);
        assert(rest.drop_first() == prog@.subrange(i + 1, prog@.len() as int));
        if exec_stmt(&prog[i], ctx, host, fuel) {
            return true;
        }
        i += 1;
    }
    false
}

} // verus!
