//! Runtime values and the syntax tree, with their mathematical views.
use vstd::prelude::*;
use crate::text::slice;
use crate::types::Type;

verus! {

/// A runtime value. A float is held as the bit pattern of an IEEE double,
/// which only the host interprets; a list is a handle into the context's
/// heap, so that two bindings may share one sequence.
#[derive(Debug, PartialEq, Eq)]
pub enum Value {
    Int(i64),
    Float(u64),
    Bool(bool),
    Str(Vec<char>),
    List(usize),
}

/// The view of a value: text as a character sequence; a float's bits are
/// not tracked.
pub enum ValueV {
    Int(i64),
    Float,
    Bool(bool),
    Str(Seq<char>),
    List(nat),
}

impl View for Value {
    type V = ValueV;

    open spec fn view(&self) -> ValueV {
        match self {
            Value::Int(i) => ValueV::Int(*i),
            Value::Float(_) => ValueV::Float,
            Value::Bool(b) => ValueV::Bool(*b),
            Value::Str(s) => ValueV::Str(s@),
            Value::List(h) => ValueV::List(*h as nat),
        }
    }
}

impl Value {
    /// A copy of the value; a list copy shares the same sequence.
    pub fn copy(&self) -> (r: Value)
        ensures
            r@ == self@,
            self is Float ==> r == *self,
    {
        match self {
            Value::Int(i) => Value::Int(*i),
            Value::Float(x) => Value::Float(*x),
            Value::Bool(b) => Value::Bool(*b),
            Value::Str(s) => Value::Str(s.clone()),
            Value::List(h) => Value::List(*h),
        }
    }
}

/// An expression.
#[derive(Debug)]
pub enum Expr {
    Literal(Value),
    /// A float literal, kept as its text.
    FloatLit(Vec<char>),
    Var(Vec<char>),
    BinOp(Box<Expr>, char, Box<Expr>),
    Call(Vec<char>, Box<Exprs>),
}

/// A sequence of expressions.
#[derive(Debug)]
pub enum Exprs {
    Nil,
    Cons(Box<Expr>, Box<Exprs>),
}

/// The view of an expression.
pub enum ExprV {
    Literal(ValueV),
    FloatLit(Seq<char>),
    Var(Seq<char>),
    BinOp(Box<ExprV>, char, Box<ExprV>),
    Call(Seq<char>, Seq<ExprV>),
}

impl Expr {
    pub open spec fn view(self) -> ExprV
        decreases self,
    {
        match self {
            Expr::Literal(v) => ExprV::Literal(v@),
            Expr::FloatLit(t) => ExprV::FloatLit(t@),
            Expr::Var(n) => ExprV::Var(n@),
            Expr::BinOp(a, op, b) => ExprV::BinOp(Box::new((*a).view()), op, Box::new((*b).view())),
            Expr::Call(n, args) => ExprV::Call(n@, (*args).view()),
        }
    }
}

impl Exprs {
    pub open spec fn view(self) -> Seq<ExprV>
        decreases self,
    {
        match self {
            Exprs::Nil => Seq::empty(),
            Exprs::Cons(e, rest) => seq![(*e).view()] + (*rest).view(),
        }
    }
}

/// A statement.
#[derive(Debug)]
pub enum Stmt {
    VarDef(Vec<char>, Type, Expr),
    Print(Box<Exprs>),
    Shell(Vec<Vec<char>>),
    SetShell(Vec<char>),
    If(Expr, Box<Stmts>, Box<Stmts>),
    While(Expr, Box<Stmts>),
    FuncDef(Vec<char>, Vec<(Vec<char>, Type)>, Type, Box<Stmts>),
    Exit,
    Clear,
    Help,
    ExprStmt(Expr),
}

/// A sequence of statements.
#[derive(Debug)]
pub enum Stmts {
    Nil,
    Cons(Box<Stmt>, Box<Stmts>),
}

/// The view of a statement.
pub enum StmtV {
    VarDef(Seq<char>, Type, ExprV),
    Print(Seq<ExprV>),
    Shell(Seq<Seq<char>>),
    SetShell(Seq<char>),
    If(ExprV, Seq<StmtV>, Seq<StmtV>),
    While(ExprV, Seq<StmtV>),
    FuncDef(Seq<char>, Seq<(Seq<char>, Type)>, Type, Seq<StmtV>),
    Exit,
    Clear,
    Help,
    ExprStmt(ExprV),
}

/// The view of a list of text pieces.
pub open spec fn texts_view(v: Seq<Vec<char>>) -> Seq<Seq<char>> {
    v.map_values(|t: Vec<char>| t@)
}

/// The view of a parameter list.
pub open spec fn params_view(v: Seq<(Vec<char>, Type)>) -> Seq<(Seq<char>, Type)> {
    v.map_values(|p: (Vec<char>, Type)| (p.0@, p.1))
}

impl Stmt {
    pub open spec fn view(self) -> StmtV
        decreases self,
    {
        match self {
            Stmt::VarDef(n, t, e) => StmtV::VarDef(n@, t, e.view()),
            Stmt::Print(es) => StmtV::Print((*es).view()),
            Stmt::Shell(args) => StmtV::Shell(texts_view(args@)),
            Stmt::SetShell(p) => StmtV::SetShell(p@),
            Stmt::If(c, a, b) => StmtV::If(c.view(), (*a).view(), (*b).view()),
            Stmt::While(c, b) => StmtV::While(c.view(), (*b).view()),
            Stmt::FuncDef(n, ps, t, b) => StmtV::FuncDef(n@, params_view(ps@), t, (*b).view()),
            Stmt::Exit => StmtV::Exit,
            Stmt::Clear => StmtV::Clear,
            Stmt::Help => StmtV::Help,
            Stmt::ExprStmt(e) => StmtV::ExprStmt(e.view()),
        }
    }
}

impl Stmts {
    pub open spec fn view(self) -> Seq<StmtV>
        decreases self,
    {
        match self {
            Stmts::Nil => Seq::empty(),
            Stmts::Cons(s, rest) => seq![(*s).view()] + (*rest).view(),
        }
    }
}

/// A copy of the characters `v`.
pub fn copy_chars(v: &Vec<char>) -> (r: Vec<char>)
    ensures
        r@ == v@,
{
    let r = slice(v, 0, v.len());
    assert(v@.subrange(0, v@.len() as int) == v@);
    r
}

/// A copy of a list of text pieces.
pub fn copy_texts(v: &Vec<Vec<char>>) -> (r: Vec<Vec<char>>)
    ensures
        texts_view(r@) == texts_view(v@),
{
    let mut r: Vec<Vec<char>> = Vec::new();
    let mut i: usize = 0;
    while i < v.len()
        invariant
            i <= v.len(),
            texts_view(r@) =~= texts_view(v@).take(i as int),
        decreases v.len() - i,
    {
        let ghost before = r@;
        let t = copy_chars(&v[i]);
        r.push(t);
        assert(texts_view(r@) =~= texts_view(before).push(t@));
        assert(texts_view(v@).take(i + 1) =~= texts_view(v@).take(i as int).push(v@[i as int]@));
        i += 1;
    }
    assert(texts_view(v@).take(v.len() as int) =~= texts_view(v@));
    r
}

/// A copy of a parameter list.
pub fn copy_params(v: &Vec<(Vec<char>, Type)>) -> (r: Vec<(Vec<char>, Type)>)
    ensures
        params_view(r@) == params_view(v@),
        r@.len() == v@.len(),
        forall|i: int| 0 <= i < r@.len() ==> #[trigger] r@[i].0@ == v@[i].0@ && r@[i].1 == v@[i].1,
{
    let mut r: Vec<(Vec<char>, Type)> = Vec::new();
    let mut i: usize = 0;
    while i < v.len()
        invariant
            i <= v.len(),
            r@.len() == i,
            forall|k: int| 0 <= k < i ==> #[trigger] r@[k].0@ == v@[k].0@ && r@[k].1 == v@[k].1,
        decreases v.len() - i,
    {
        let e = (copy_chars(&v[i].0), v[i].1.copy());
        r.push(e);
        i += 1;
    }
    assert(params_view(r@) =~= params_view(v@));
    r
}

impl Expr {
    /// A copy of the expression.
    pub fn copy(&self) -> (r: Expr)
        ensures
            r.view() == self.view(),
        decreases self,
    {
        match self {
            Expr::Literal(v) => Expr::Literal(v.copy()),
            Expr::FloatLit(t) => Expr::FloatLit(copy_chars(t)),
            Expr::Var(n) => Expr::Var(copy_chars(n)),
            Expr::BinOp(a, op, b) => Expr::BinOp(Box::new((**a).copy()), *op, Box::new((**b).copy())),
            Expr::Call(n, args) => Expr::Call(copy_chars(n), Box::new((**args).copy())),
        }
    }
}

impl Exprs {
    /// A copy of the expressions.
    pub fn copy(&self) -> (r: Exprs)
        ensures
            r.view() == self.view(),
        decreases self,
    {
        match self {
            Exprs::Nil => Exprs::Nil,
            Exprs::Cons(e, rest) => Exprs::Cons(Box::new((**e).copy()), Box::new((**rest).copy())),
        }
    }
}

impl Stmt {
    /// A copy of the statement.
    pub fn copy(&self) -> (r: Stmt)
        ensures
            r.view() == self.view(),
        decreases self,
    {
        match self {
            Stmt::VarDef(n, t, e) => Stmt::VarDef(copy_chars(n), t.copy(), e.copy()),
            Stmt::Print(es) => Stmt::Print(Box::new((**es).copy())),
            Stmt::Shell(args) => Stmt::Shell(copy_texts(args)),
            Stmt::SetShell(p) => Stmt::SetShell(copy_chars(p)),
            Stmt::If(c, a, b) => Stmt::If(c.copy(), Box::new((**a).copy()), Box::new((**b).copy())),
            Stmt::While(c, b) => Stmt::While(c.copy(), Box::new((**b).copy())),
            Stmt::FuncDef(n, ps, t, b) => Stmt::FuncDef(
                copy_chars(n),
                copy_params(ps),
                t.copy(),
                Box::new((**b).copy()),
            ),
            Stmt::Exit => Stmt::Exit,
            Stmt::Clear => Stmt::Clear,
            Stmt::Help => Stmt::Help,
            Stmt::ExprStmt(e) => Stmt::ExprStmt(e.copy()),
        }
    }
}

impl Stmts {
    /// A copy of the statements.
    pub fn copy(&self) -> (r: Stmts)
        ensures
            r.view() == self.view(),
        decreases self,
    {
        match self {
            Stmts::Nil => Stmts::Nil,
            Stmts::Cons(s, rest) => Stmts::Cons(Box::new((**s).copy()), Box::new((**rest).copy())),
        }
    }
}

} // verus!
