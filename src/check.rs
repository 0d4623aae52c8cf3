//! The static type checker.
use vstd::prelude::*;
use crate::ast::{copy_chars, copy_params, params_view, Expr, Exprs, Stmt, Stmts, Value, ValueV};
use crate::context::{funcs_view, heap_view, Context, FuncDef, FuncV, TypeError};
use crate::env::{amap, find_last, set_entry};
use crate::types::Type;

verus! {

/// The type of a value: a list reports `list<T>` where `T` is the type of
/// its first element, and `list<void>` while it is empty.
pub open spec fn type_of(v: ValueV, heap: Seq<Seq<ValueV>>) -> Type
    decreases (match v {
        ValueV::List(h) => h + 1,
        _ => 0,
    }),
{
    match v {
        ValueV::Int(_) => Type::Int,
        ValueV::Float => Type::Float,
        ValueV::Bool(_) => Type::Bool,
        ValueV::Str(_) => Type::Str,
        ValueV::List(h) => if h < heap.len() && heap[h as int].len() > 0 {
            match heap[h as int][0] {
                ValueV::List(k) => if k < h {
                    Type::List(Box::new(type_of(ValueV::List(k), heap)))
                } else {
                    Type::List(Box::new(Type::Void))
                },
                e => Type::List(Box::new(type_of(e, heap))),
            }
        } else {
            Type::List(Box::new(Type::Void))
        },
    }
}

impl Value {
    /// The type of this value, reading lists in `heap`.
    pub fn get_type(&self, heap: &Vec<Vec<Value>>) -> (r: Type)
        ensures
            r == type_of(self@, heap_view(heap@)),
        decreases (match self@ {
            ValueV::List(h) => h + 1,
            _ => 0,
        }),
    {
        match self {
            Value::Int(_) => Type::Int,
            Value::Float(_) => Type::Float,
            Value::Bool(_) => Type::Bool,
            Value::Str(_) => Type::Str,
            Value::List(h) => {
                let ghost hv = heap_view(heap@);
                if *h < heap.len() && heap[*h].len() > 0 {
                    assert(hv[*h as int] == crate::context::values_view(heap@[*h as int]@));
                    let e = &heap[*h][0];
                    match e {
                        Value::List(k) => if *k < *h {
                            Type::List(Box::new(Value::List(*k).get_type(heap)))
                        } else {
                            Type::List(Box::new(Type::Void))
                        },
                        _ => Type::List(Box::new(e.get_type(heap))),
                    }
                } else {
                    Type::List(Box::new(Type::Void))
                }
            },
        }
    }
}

/// The type of an expression under the declared types `types`.
pub open spec fn chk_expr(e: Expr, types: Map<Seq<char>, Type>, heap: Seq<Seq<ValueV>>) -> Result<Type, TypeError>
    decreases e,
{
    match e {
        Expr::Literal(v) => Ok(type_of(v@, heap)),
        Expr::FloatLit(_) => Ok(Type::Float),
        Expr::Var(n) => if types.contains_key(n@) {
            Ok(types[n@])
        } else {
            Err(TypeError::UnknownVar)
        },
        Expr::BinOp(a, _, b) => match chk_expr(*a, types, heap) {
            Err(x) => Err(x),
            Ok(ta) => match chk_expr(*b, types, heap) {
                Err(x) => Err(x),
                Ok(tb) => if ta == tb {
                    Ok(ta)
                } else {
                    Err(TypeError::BinOpMismatch)
                },
            },
        },
        Expr::Call(_, _) => Err(TypeError::CallNotTyped),
    }
}

/// The first error among the types of `es`, if any.
pub open spec fn chk_exprs(es: Exprs, types: Map<Seq<char>, Type>, heap: Seq<Seq<ValueV>>) -> Result<(), TypeError>
    decreases es,
{
    match es {
        Exprs::Nil => Ok(()),
        Exprs::Cons(e, rest) => match chk_expr(*e, types, heap) {
            Err(x) => Err(x),
            Ok(_) => chk_exprs(*rest, types, heap),
        },
    }
}

/// `m` with each parameter bound to its type, in order.
pub open spec fn with_params(m: Map<Seq<char>, Type>, ps: Seq<(Seq<char>, Type)>) -> Map<Seq<char>, Type>
    decreases ps.len(),
{
    if ps.len() == 0 {
        m
    } else {
        with_params(m, ps.drop_last()).insert(ps.last().0, ps.last().1)
    }
}

/// Declared types and recorded functions.
pub type TS = (Map<Seq<char>, Type>, Map<Seq<char>, FuncV>);

/// Checks a statement: the declared types and functions after it, and
/// whether it passed. Both branches of a conditional are checked; a
/// function's body is checked with its parameters declared, which are
/// gone again afterwards, and the function is recorded if its body passed.
pub open spec fn chk_stmt(s: Stmt, ts: TS, heap: Seq<Seq<ValueV>>) -> (TS, Result<(), TypeError>)
    decreases s,
{
    match s {
        Stmt::VarDef(n, t, e) => match chk_expr(e, ts.0, heap) {
            Err(x) => (ts, Err(x)),
            Ok(et) => if et == t {
                ((ts.0.insert(n@, t), ts.1), Ok(()))
            } else {
                (ts, Err(TypeError::Mismatch))
            },
        },
        Stmt::Print(es) => (ts, chk_exprs(*es, ts.0, heap)),
        Stmt::If(c, a, b) => match chk_expr(c, ts.0, heap) {
            Err(x) => (ts, Err(x)),
            Ok(ct) => if ct != Type::Bool {
                (ts, Err(TypeError::CondNotBool))
            } else {
                let (ts1, r1) = chk_list(*a, ts, heap);
                if r1 is Err {
                    (ts1, r1)
                } else {
                    chk_list(*b, ts1, heap)
                }
            },
        },
        Stmt::While(c, body) => match chk_expr(c, ts.0, heap) {
            Err(x) => (ts, Err(x)),
            Ok(ct) => if ct != Type::Bool {
                (ts, Err(TypeError::CondNotBool))
            } else {
                chk_list(*body, ts, heap)
            },
        },
        Stmt::FuncDef(n, ps, ret, body) => {
            let (ts1, r1) = chk_list(*body, (with_params(ts.0, params_view(ps@)), ts.1), heap);
            if r1 is Err {
                ((ts.0, ts1.1), r1)
            } else {
                ((ts.0, ts1.1.insert(n@, (params_view(ps@), ret, (*body).view()))), Ok(()))
            }
        },
        Stmt::ExprStmt(e) => match chk_expr(e, ts.0, heap) {
            Err(x) => (ts, Err(x)),
            Ok(_) => (ts, Ok(())),
        },
        _ => (ts, Ok(())),
    }
}

/// Checks statements in order, up to the first that fails.
pub open spec fn chk_list(ss: Stmts, ts: TS, heap: Seq<Seq<ValueV>>) -> (TS, Result<(), TypeError>)
    decreases ss,
{
    match ss {
        Stmts::Nil => (ts, Ok(())),
        Stmts::Cons(s, rest) => {
            let (ts1, r1) = chk_stmt(*s, ts, heap);
            if r1 is Err {
                (ts1, r1)
            } else {
                chk_list(*rest, ts1, heap)
            }
        },
    }
}

/// The type of `e` under the context's declared types.
pub fn type_check_expr(e: &Expr, ctx: &Context) -> (r: Result<Type, TypeError>)
    ensures
        r == chk_expr(*e, ctx.view().types, ctx.view().heap),
    decreases e,
{
    match e {
        Expr::Literal(v) => Ok(v.get_type(&ctx.heap)),
        Expr::FloatLit(_) => Ok(Type::Float),
        Expr::Var(n) => match find_last(&ctx.types, n) {
            Some(j) => Ok(ctx.types[j].1.copy()),
            None => Err(TypeError::UnknownVar),
        },
        Expr::BinOp(a, _, b) => {
            let ta = match type_check_expr(a, ctx) {
                Ok(t) => t,
                Err(x) => { return Err(x); },
            };
            let tb = match type_check_expr(b, ctx) {
                Ok(t) => t,
                Err(x) => { return Err(x); },
            };
            if ta.same_type(&tb) {
                Ok(ta)
            } else {
                Err(TypeError::BinOpMismatch)
            }
        },
        Expr::Call(_, _) => Err(TypeError::CallNotTyped),
    }
}

fn type_check_exprs(es: &Exprs, ctx: &Context) -> (r: Result<(), TypeError>)
    ensures
        r == chk_exprs(*es, ctx.view().types, ctx.view().heap),
    decreases es,
{
    match es {
        Exprs::Nil => Ok(()),
        Exprs::Cons(e, rest) => match type_check_expr(e, ctx) {
            Err(x) => Err(x),
            Ok(_) => type_check_exprs(rest, ctx),
        },
    }
}

proof fn lemma_amap_same(s: Seq<(Vec<char>, Type)>, t: Seq<(Vec<char>, Type)>)
    requires
        s.len() == t.len(),
        forall|i: int| 0 <= i < s.len() ==> #[trigger] s[i].0@ == t[i].0@ && s[i].1 == t[i].1,
    ensures
        amap(s) == amap(t),
    decreases s.len(),
{
    if s.len() > 0 {
        lemma_amap_same(s.drop_last(), t.drop_last());
    }
}

/// Checks `stmt` against the context's declared types, recording what it
/// declares; only the declared types and the functions change.
pub fn type_check_stmt(stmt: &Stmt, ctx: &mut Context) -> (r: Result<(), TypeError>)
    ensures
        ({
            let (ts, res) = chk_stmt(*stmt, (old(ctx).view().types, old(ctx).view().funcs), old(ctx).view().heap);
            &&& r == res
            &&& final(ctx).view() == (crate::context::World { types: ts.0, funcs: ts.1, ..old(ctx).view() })
        }),
    decreases stmt,
{
    let ghost w0 = ctx.view();
    match stmt {
        Stmt::VarDef(n, t, e) => {
            let et = match type_check_expr(e, ctx) {
                Ok(et) => et,
                Err(x) => {
                    assert(ctx.view() =~= (crate::context::World { ..w0 }));
                    return Err(x);
                },
            };
            if !et.same_type(t) {
                return Err(TypeError::Mismatch);
            }
            set_entry(&mut ctx.types, copy_chars(n), t.copy());
            Ok(())
        },
        Stmt::Print(es) => type_check_exprs(es, ctx),
        Stmt::If(c, a, b) => {
            let ct = match type_check_expr(c, ctx) {
                Ok(ct) => ct,
                Err(x) => { return Err(x); },
            };
            if !ct.same_type(&Type::Bool) {
                return Err(TypeError::CondNotBool);
            }
            let r1 = type_check_list(a, ctx);
            if r1.is_err() {
                return r1;
            }
            type_check_list(b, ctx)
        },
        Stmt::While(c, body) => {
            let ct = match type_check_expr(c, ctx) {
                Ok(ct) => ct,
                Err(x) => { return Err(x); },
            };
            if !ct.same_type(&Type::Bool) {
                return Err(TypeError::CondNotBool);
            }
            type_check_list(body, ctx)
        },
        Stmt::FuncDef(n, ps, ret, body) => {
            let saved = copy_params(&ctx.types);
            let mut i: usize = 0;
            while i < ps.len()
                invariant
                    i <= ps.len(),
                    amap(ctx.types@) == with_params(w0.types, params_view(ps@).take(i as int)),
                    ctx.view() == (crate::context::World { types: ctx.view().types, ..w0 }),
                decreases ps.len() - i,
            {
                set_entry(&mut ctx.types, copy_chars(&ps[i].0), ps[i].1.copy());
                assert(params_view(ps@).take(i + 1).drop_last() == params_view(ps@).take(i as int));
                i += 1;
            }
            assert(params_view(ps@).take(ps.len() as int) == params_view(ps@));
            let r1 = type_check_list(body, ctx);
            ctx.types = saved;
            proof { lemma_amap_same(ctx.types@, old(ctx).types@); }
            if r1.is_err() {
                return r1;
            }
            let def = FuncDef { params: copy_params(ps), ret: ret.copy(), body: (**body).copy() };
            let ghost before = amap(ctx.funcs@);
            set_entry(&mut ctx.funcs, copy_chars(n), def);
            assert(funcs_view(amap(ctx.funcs@)) =~= funcs_view(before).insert(n@, (params_view(ps@), *ret, (**body).view())));
            Ok(())
        },
        Stmt::ExprStmt(e) => match type_check_expr(e, ctx) {
            Err(x) => Err(x),
            Ok(_) => Ok(()),
        },
        _ => Ok(()),
    }
}

/// Checks statements in order, up to the first that fails.
pub fn type_check_list(ss: &Stmts, ctx: &mut Context) -> (r: Result<(), TypeError>)
    ensures
        ({
            let (ts, res) = chk_list(*ss, (old(ctx).view().types, old(ctx).view().funcs), old(ctx).view().heap);
            &&& r == res
            &&& final(ctx).view() == (crate::context::World { types: ts.0, funcs: ts.1, ..old(ctx).view() })
        }),
    decreases ss,
{
    match ss {
        Stmts::Nil => Ok(()),
        Stmts::Cons(s, rest) => {
            let r1 = type_check_stmt(s, ctx);
            if r1.is_err() {
                return r1;
            }
            type_check_list(rest, ctx)
        },
    }
}

} // verus!
