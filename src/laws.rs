//! Properties of the type checker and the evaluator, proved over their
//! spec functions.
use vstd::prelude::*;
use crate::ast::{Expr, Stmt, Stmts, Value, ValueV};
use crate::check::{chk_expr, chk_list, chk_stmt};
use crate::context::{push_item, EffectV, RunError, TypeError, World};
use crate::eval::{eval, run, run_list, run_loop, run_seq};
use crate::types::Type;

verus! {

/// A declaration whose initializer has the declared type and a value
/// binds the name to that value and records the declared type.
pub proof fn law_declaration_binds(n: Vec<char>, t: Type, e: Expr, w: World, fuel: nat)
    requires
        chk_expr(e, w.types, w.heap) == Ok::<Type, TypeError>(t),
        eval(e, w.vars) is Ok,
    ensures
        ({
            let (w2, stop) = run(Stmt::VarDef(n, t, e), w, fuel);
            &&& !stop
            &&& w2.vars.contains_key(n@)
            &&& w2.vars[n@] == eval(e, w.vars)->Ok_0
            &&& w2.types.contains_key(n@)
            &&& w2.types[n@] == t
        }),
{
}

/// The world after a statement's check.
pub open spec fn checked(s: Stmt, w: World) -> World {
    let (ts, _) = chk_stmt(s, (w.types, w.funcs), w.heap);
    World { types: ts.0, funcs: ts.1, ..w }
}

/// A conditional on `true` runs exactly its first branch, and one on
/// `false` exactly its second; both branches must pass the check, else
/// neither runs.
pub proof fn law_if_branches(lit: bool, a: Stmts, b: Stmts, w: World, fuel: nat)
    ensures
        ({
            let s = Stmt::If(Expr::Literal(Value::Bool(lit)), Box::new(a), Box::new(b));
            let (ta, ra) = chk_list(a, (w.types, w.funcs), w.heap);
            let both = ra is Ok && chk_list(b, ta, w.heap).1 is Ok;
            &&& (chk_stmt(s, (w.types, w.funcs), w.heap).1 is Ok <==> both)
            &&& (both && lit ==> run(s, w, fuel) == run_list(a, checked(s, w), fuel))
            &&& (both && !lit ==> run(s, w, fuel) == run_list(b, checked(s, w), fuel))
            &&& (!both ==> run(s, w, fuel).0.effects == w.effects.push(
                EffectV::Error(RunError::Type(chk_stmt(s, (w.types, w.funcs), w.heap).1->Err_0)),
            ))
        }),
{
    let s = Stmt::If(Expr::Literal(Value::Bool(lit)), Box::new(a), Box::new(b));
    assert(chk_expr(Expr::Literal(Value::Bool(lit)), w.types, w.heap) == Ok::<Type, TypeError>(
        Type::Bool,
    ));
}

/// A loop whose condition is `false` runs its body zero times.
pub proof fn law_loop_false(c: Expr, body: Stmts, w: World, fuel: nat)
    requires
        fuel > 0,
        eval(c, w.vars) == Ok::<ValueV, RunError>(ValueV::Bool(false)),
    ensures
        run_loop(c, body, w, fuel) == (w, false),
{
}

/// While its condition is `true`, a loop runs its body once more and
/// then starts over; it ends the run at once when the body asks to stop.
pub proof fn law_loop_true(c: Expr, body: Stmts, w: World, fuel: nat)
    requires
        fuel > 0,
        eval(c, w.vars) == Ok::<ValueV, RunError>(ValueV::Bool(true)),
    ensures
        ({
            let (w1, stop) = run_list(body, w, (fuel - 1) as nat);
            &&& stop ==> run_loop(c, body, w, fuel) == (w1, true)
            &&& !stop ==> run_loop(c, body, w, fuel) == run_loop(c, body, w1, (fuel - 1) as nat)
        }),
{
}

/// A loop body that starts with `exit` ends the loop and the run before
/// anything else of it happens.
pub proof fn law_loop_exit(c: Expr, rest: Stmts, w: World, fuel: nat)
    requires
        fuel > 0,
        eval(c, w.vars) == Ok::<ValueV, RunError>(ValueV::Bool(true)),
    ensures
        run_loop(c, Stmts::Cons(Box::new(Stmt::Exit), Box::new(rest)), w, fuel) == (w, true),
{
    let f = (fuel - 1) as nat;
    assert(run(Stmt::Exit, w, f) == (World { types: w.types, funcs: w.funcs, ..w }, true));
    assert(World { types: w.types, funcs: w.funcs, ..w } == w);
    let body = Stmts::Cons(Box::new(Stmt::Exit), Box::new(rest));
    assert(run_list(body, w, f) == (w, true));
}

/// The items of the list that the variable `name` holds.
pub open spec fn items_of(w: World, name: Seq<char>) -> Seq<ValueV> {
    w.heap[w.vars[name]->List_0 as int]
}

/// Two variables that hold the same list see each other's changes: an
/// item appended through the one is there when read through the other.
pub proof fn law_list_alias(w: World, a: Seq<char>, b: Seq<char>, h: nat, v: ValueV)
    requires
        w.vars.contains_key(a),
        w.vars.contains_key(b),
        w.vars[a] == ValueV::List(h),
        w.vars[b] == ValueV::List(h),
        h < w.heap.len(),
    ensures
        items_of(push_item(w, h, v), b) == items_of(w, a).push(v),
        items_of(push_item(w, h, v), a) == items_of(push_item(w, h, v), b),
{
}

/// Running the same program from two equal contexts gives the same
/// effects and the same final context.
pub proof fn law_deterministic(ss: Seq<Stmt>, w1: World, w2: World, fuel: nat)
    requires
        w1 == w2,
    ensures
        run_seq(ss, w1, fuel).0.effects == run_seq(ss, w2, fuel).0.effects,
        run_seq(ss, w1, fuel) == run_seq(ss, w2, fuel),
{
}

} // verus!
