//! Parsing of expressions and statements from source text.
use vstd::prelude::*;
use crate::ast::{params_view, texts_view, Expr, ExprV, Exprs, Stmt, StmtV, Stmts, Value, ValueV};
use crate::lex::{tokens, tokens_of_chars};
use crate::types::{type_of_chars, type_of_text, Type};
use crate::num::{float_text, int_of, int_text, is_float_text};
use crate::text::{
    chars_of, find, find_char, find_str, find_text, is_text, lemma_find, lemma_find_text,
    lemma_find_at, lemma_trim_len, slice, starts, starts_with, trim, trimmed,
};

verus! {

/// The expression that `s0` denotes, after trimming whitespace. The first
/// rule that applies wins: a text quoted at both ends is a string; `true`
/// and `false` are booleans; a float with a point; an integer; a text
/// with a `+` is a sum split at its first `+`; a text with a `(` is a
/// call, its name before the first `(` and its comma-separated arguments
/// between it and the last character; anything else names a variable.
pub open spec fn pexpr(s0: Seq<char>) -> ExprV
    decreases s0.len(), 0int,
{
    let s = trim(s0);
    proof { lemma_trim_len(s0); lemma_find(s, '+'); lemma_find(s, '('); }
    if s.len() >= 2 && s[0] == '"' && s.last() == '"' {
        ExprV::Literal(ValueV::Str(s.subrange(1, s.len() - 1)))
    } else if s == "true"@ {
        ExprV::Literal(ValueV::Bool(true))
    } else if s == "false"@ {
        ExprV::Literal(ValueV::Bool(false))
    } else if float_text(s) {
        ExprV::FloatLit(s)
    } else if int_text(s) is Some {
        ExprV::Literal(ValueV::Int(int_text(s)->0))
    } else if find(s, '+') is Some {
        let i = find(s, '+')->0;
        ExprV::BinOp(
            Box::new(pexpr(s.subrange(0, i))),
            '+',
            Box::new(pexpr(s.subrange(i + 1, s.len() as int))),
        )
    } else if find(s, '(') is Some {
        let i = find(s, '(')->0;
        let args = if i + 1 < s.len() - 1 {
            s.subrange(i + 1, s.len() - 1)
        } else {
            Seq::empty()
        };
        ExprV::Call(
            s.subrange(0, i),
            if args.len() == 0 {
                Seq::empty()
            } else {
                pargs(args)
            },
        )
    } else {
        ExprV::Var(s)
    }
}

/// The expressions of the comma-separated pieces of `t`.
pub open spec fn pargs(t: Seq<char>) -> Seq<ExprV>
    decreases t.len(), 1int,
{
    proof { lemma_find(t, ','); }
    match find(t, ',') {
        Some(i) => seq![pexpr(t.subrange(0, i))] + pargs(t.subrange(i + 1, t.len() as int)),
        None => seq![pexpr(t)],
    }
}

/// Parses the expression in the characters `v`.
pub fn expr_of_chars(v: &Vec<char>) -> (r: Expr)
    ensures
        r.view() == pexpr(v@),
    decreases v@.len(), 0int,
{
    let s = trimmed(v);
    proof { lemma_trim_len(v@); lemma_find(s@, '+'); lemma_find(s@, '('); }
    if s.len() >= 2 && s[0] == '"' && s[s.len() - 1] == '"' {
        return Expr::Literal(Value::Str(slice(&s, 1, s.len() - 1)));
    }
    if is_text(&s, "true") {
        return Expr::Literal(Value::Bool(true));
    }
    if is_text(&s, "false") {
        return Expr::Literal(Value::Bool(false));
    }
    if is_float_text(&s) {
        return Expr::FloatLit(s);
    }
    if let Some(i) = int_of(&s) {
        return Expr::Literal(Value::Int(i));
    }
    if let Some(i) = find_char(&s, '+') {
        let a = slice(&s, 0, i);
        let b = slice(&s, i + 1, s.len());
        return Expr::BinOp(Box::new(expr_of_chars(&a)), '+', Box::new(expr_of_chars(&b)));
    }
    if let Some(i) = find_char(&s, '(') {
        let name = slice(&s, 0, i);
        let args = if i + 1 < s.len() - 1 {
            slice(&s, i + 1, s.len() - 1)
        } else {
            Vec::new()
        };
        assert(i < s@.len());
        assert(args@ == (if i + 1 < s@.len() - 1 { s@.subrange(i + 1, s@.len() - 1) } else { Seq::<char>::empty() }));
        let list = if args.len() == 0 {
            Exprs::Nil
        } else {
            args_of_chars(&args)
        };
        assert(Exprs::Nil.view() == Seq::<ExprV>::empty());
        let r = Expr::Call(name, Box::new(list));
        assert(r.view() =~= pexpr(v@));
        return r;
    }
    Expr::Var(s)
}

/// Parses the comma-separated expressions in the characters `t`.
pub fn args_of_chars(t: &Vec<char>) -> (r: Exprs)
    ensures
        r.view() == pargs(t@),
    decreases t@.len(), 1int,
{
    proof { lemma_find(t@, ','); }
    match find_char(t, ',') {
        Some(i) => {
            assert(i < t@.len());
            assert(t@.len() == t.len());
            let a = slice(t, 0, i);
            let b = slice(t, i + 1, t.len());
            let e = expr_of_chars(&a);
            let rest = args_of_chars(&b);
            let r = Exprs::Cons(Box::new(e), Box::new(rest));
            assert(r.view() =~= pargs(t@));
            r
        },
        None => {
            assert(Exprs::Nil.view() == Seq::<ExprV>::empty());
            let r = Exprs::Cons(Box::new(expr_of_chars(t)), Box::new(Exprs::Nil));
            assert(r.view() =~= pargs(t@));
            r
        },
    }
}

/// Parses the expression in `s`.
pub fn parse_expr(s: &str) -> (r: Expr)
    ensures
        r.view() == pexpr(s@),
{
    let v = chars_of(s);
    expr_of_chars(&v)
}

/// A malformed statement: `line` is the index, among the lines given, of
/// the header or line that could not be parsed.
#[derive(Debug, PartialEq, Eq)]
pub struct SyntaxError {
    pub line: usize,
}

/// Parameters of a function header: the comma-separated pieces of `t`
/// that are not blank, each `name:type`; `Err` if a piece has no `:`.
pub open spec fn pparams(t: Seq<char>) -> Result<Seq<(Seq<char>, Type)>, ()>
    decreases t.len(),
{
    proof { lemma_find(t, ','); }
    let (piece, rest) = match find(t, ',') {
        Some(i) => (trim(t.subrange(0, i)), Some(t.subrange(i + 1, t.len() as int))),
        None => (trim(t), None),
    };
    let tail: Result<Seq<(Seq<char>, Type)>, ()> = match rest {
        Some(r) => pparams(r),
        None => Ok(Seq::empty()),
    };
    if piece.len() == 0 {
        tail
    } else {
        match (find(piece, ':'), tail) {
            (Some(c), Ok(ps)) => Ok(
                seq![(piece.subrange(0, c), type_of_text(piece.subrange(c + 1, piece.len() as int)))]
                    + ps,
            ),
            _ => Err(()),
        }
    }
}

/// The statement that starts at line `at` of `lines`, with the number of
/// lines it takes; `Err` holds the index of the malformed line. Lines are
/// matched by their text: `exit` or `quit`, `clear`, `help`,
/// `setshell <path>`, `var <name>:<type> = <expr>`, `print...`,
/// `shell <args>`, the blocks `if <cond> then ... [else ...] end`,
/// `while <cond> do ... end` and `fn <name>(<params>)[-><type>] ... end`;
/// any other line is an expression statement.
pub open spec fn pstmt(lines: Seq<Seq<char>>, at: int) -> Result<(StmtV, int), int>
    decreases lines.len() - at, 0int,
{
    if at < 0 || at >= lines.len() {
        Err(at)
    } else {
        let line = lines[at];
        if line == "exit"@ || line == "quit"@ {
            Ok((StmtV::Exit, 1))
        } else if line == "clear"@ {
            Ok((StmtV::Clear, 1))
        } else if line == "help"@ {
            Ok((StmtV::Help, 1))
        } else if starts(line, "setshell "@) {
            Ok((StmtV::SetShell(line.subrange(9, line.len() as int)), 1))
        } else if starts(line, "var "@) && find(line.subrange(4, line.len() as int), '=') is Some
            && find(
            trim(
                line.subrange(4, line.len() as int).subrange(
                    0,
                    find(line.subrange(4, line.len() as int), '=')->0,
                ),
            ),
            ':',
        ) is Some {
            let rest4 = line.subrange(4, line.len() as int);
            let e = find(rest4, '=')->0;
            let left = trim(rest4.subrange(0, e));
            let c = find(left, ':')->0;
            Ok(
                (
                    StmtV::VarDef(
                        trim(left.subrange(0, c)),
                        type_of_text(trim(left.subrange(c + 1, left.len() as int))),
                        pexpr(rest4.subrange(e + 1, rest4.len() as int)),
                    ),
                    1,
                ),
            )
        } else if starts(line, "print"@) {
            let rest5 = line.subrange(5, line.len() as int);
            match find(rest5, '(') {
                Some(i) => if i + 2 <= rest5.len() {
                    Ok((StmtV::Print(pargs(rest5.subrange(i + 1, rest5.len() - 1))), 1))
                } else {
                    Err(at)
                },
                None => Ok((StmtV::Print(pargs(trim(rest5))), 1)),
            }
        } else if starts(line, "shell "@) {
            Ok((StmtV::Shell(tokens(line.subrange(6, line.len() as int))), 1))
        } else if starts(line, "if "@) {
            match find_text(line, "then"@) {
                Some(t) => if t >= 3 {
                    match pbody(lines, at + 1, at, true) {
                        Ok((yes, j)) => if at < j < lines.len() && trim(lines[j]) == "else"@ {
                            match pbody(lines, j + 1, at, false) {
                                Ok((no, k)) => Ok(
                                    (
                                        StmtV::If(pexpr(line.subrange(3, t)), yes, no),
                                        k + 1 - at,
                                    ),
                                ),
                                Err(e) => Err(e),
                            }
                        } else {
                            Ok((StmtV::If(pexpr(line.subrange(3, t)), yes, Seq::empty()), j + 1 - at))
                        },
                        Err(e) => Err(e),
                    }
                } else {
                    Err(at)
                },
                None => Err(at),
            }
        } else if starts(line, "while "@) {
            match find_text(line, "do"@) {
                Some(d) => if d >= 6 {
                    match pbody(lines, at + 1, at, false) {
                        Ok((body, j)) => Ok(
                            (StmtV::While(pexpr(line.subrange(6, d)), body), j + 1 - at),
                        ),
                        Err(e) => Err(e),
                    }
                } else {
                    Err(at)
                },
                None => Err(at),
            }
        } else if starts(line, "fn "@) {
            let after = line.subrange(3, line.len() as int);
            match (find(after, '('), find(after, ')')) {
                (Some(p), Some(q)) => if p < q {
                    let ret = match find_text(after, ")->"@) {
                        Some(rp) => type_of_text(trim(after.subrange(rp + 3, after.len() as int))),
                        None => Type::Void,
                    };
                    match (pparams(after.subrange(p + 1, q)), pbody(lines, at + 1, at, false)) {
                        (Ok(ps), Ok((body, j))) => Ok(
                            (StmtV::FuncDef(after.subrange(0, p), ps, ret, body), j + 1 - at),
                        ),
                        (Err(_), _) => Err(at),
                        (_, Err(e)) => Err(e),
                    }
                } else {
                    Err(at)
                },
                _ => Err(at),
            }
        } else {
            Ok((StmtV::ExprStmt(pexpr(line)), 1))
        }
    }
}

/// The statements of a block body that starts at line `i`, up to the
/// line that ends it (`end`, or also `else` when `else_ends` holds), with
/// that line's index; `Err(hdr)` if the lines run out first.
pub open spec fn pbody(lines: Seq<Seq<char>>, i: int, hdr: int, else_ends: bool) -> Result<
    (Seq<StmtV>, int),
    int,
>
    decreases lines.len() - i, 1int,
{
    if i < 0 || i >= lines.len() {
        Err(hdr)
    } else if trim(lines[i]) == "end"@ || (else_ends && trim(lines[i]) == "else"@) {
        Ok((Seq::empty(), i))
    } else {
        match pstmt(lines, i) {
            Ok((st, c)) => if c >= 1 && i + c <= lines.len() {
                match pbody(lines, i + c, hdr, else_ends) {
                    Ok((rest, j)) => Ok((seq![st] + rest, j)),
                    Err(e) => Err(e),
                }
            } else {
                Err(i)
            },
            Err(e) => Err(e),
        }
    }
}

/// Whether a parse result agrees with the result that the spec gives.
pub open spec fn stmt_agrees(r: Result<(Stmt, usize), SyntaxError>, s: Result<(StmtV, int), int>) -> bool {
    match (r, s) {
        (Ok((a, c)), Ok((b, d))) => a.view() == b && c as int == d,
        (Err(e), Err(f)) => e.line as int == f,
        _ => false,
    }
}

/// Whether a block parse result agrees with the result that the spec gives.
pub open spec fn body_agrees(r: Result<(Stmts, usize), SyntaxError>, s: Result<(Seq<StmtV>, int), int>) -> bool {
    match (r, s) {
        (Ok((a, c)), Ok((b, d))) => a.view() == b && c as int == d,
        (Err(e), Err(f)) => e.line as int == f,
        _ => false,
    }
}

/// Parses the parameter list of a function header.
fn params_of(t: &Vec<char>) -> (r: Result<Vec<(Vec<char>, Type)>, ()>)
    ensures
        match (r, pparams(t@)) {
            (Ok(a), Ok(b)) => params_view(a@) == b,
            (Err(_), Err(_)) => true,
            _ => false,
        },
    decreases t@.len(),
{
    proof { lemma_find(t@, ','); }
    let (piece, tail) = match find_char(t, ',') {
        Some(i) => {
            assert(i < t@.len() && t@.len() == t.len());
            let rest = slice(t, i + 1, t.len());
            (trimmed(&slice(t, 0, i)), params_of(&rest))
        },
        None => (trimmed(t), Ok(Vec::new())),
    };
    if piece.len() == 0 {
        proof {
            if tail is Ok {
                assert(params_view(tail->Ok_0@) =~= pparams(t@)->Ok_0);
            }
        }
        return tail;
    }
    match (find_char(&piece, ':'), tail) {
        (Some(c), Ok(ps)) => {
            proof { lemma_find(piece@, ':'); }
            let name = slice(&piece, 0, c);
            let ty_text = slice(&piece, c + 1, piece.len());
            let ty = type_of_chars(&ty_text);
            let mut out: Vec<(Vec<char>, Type)> = Vec::new();
            out.push((name, ty));
            let mut k: usize = 0;
            while k < ps.len()
                invariant
                    k <= ps.len(),
                    params_view(out@) =~= seq![(piece@.subrange(0, c as int), ty)] + params_view(ps@).take(k as int),
                decreases ps.len() - k,
            {
                let p = &ps[k];
                let ghost before = out@;
                let item = (slice(&p.0, 0, p.0.len()), p.1.copy());
                assert(p.0@.subrange(0, p.0@.len() as int) == p.0@);
                out.push(item);
                assert(params_view(out@) =~= params_view(before).push((item.0@, item.1)));
                assert(params_view(ps@).take(k + 1) =~= params_view(ps@).take(k as int).push(params_view(ps@)[k as int]));
                k += 1;
            }
            assert(params_view(ps@).take(ps.len() as int) =~= params_view(ps@));
            Ok(out)
        },
        _ => Err(()),
    }
}

/// Parses the statement that starts at line `at` of `lines`, giving it
/// with the number of lines it takes.
pub fn parse_stmt(lines: &Vec<Vec<char>>, at: usize) -> (r: Result<(Stmt, usize), SyntaxError>)
    ensures
        stmt_agrees(r, pstmt(texts_view(lines@), at as int)),
        r matches Ok((_, c)) ==> 1 <= c && at + c <= lines.len(),
    decreases lines.len() - at, 0int,
{
    let ghost ls = texts_view(lines@);
    if at >= lines.len() {
        return Err(SyntaxError { line: at });
    }
    let line = &lines[at];
    assert(ls[at as int] == line@);
    if is_text(line, "exit") || is_text(line, "quit") {
        return Ok((Stmt::Exit, 1));
    }
    if is_text(line, "clear") {
        return Ok((Stmt::Clear, 1));
    }
    if is_text(line, "help") {
        return Ok((Stmt::Help, 1));
    }
    if starts_with(line, "setshell ") {
        proof { reveal_strlit("setshell "); }
        return Ok((Stmt::SetShell(slice(line, 9, line.len())), 1));
    }
    if starts_with(line, "var ") {
        proof { reveal_strlit("var "); }
        let rest4 = slice(line, 4, line.len());
        if let Some(e) = find_char(&rest4, '=') {
            proof { lemma_find(rest4@, '='); }
            let left = trimmed(&slice(&rest4, 0, e));
            if let Some(c) = find_char(&left, ':') {
                proof { lemma_find(left@, ':'); }
                assert(c < left@.len() && left@.len() == left.len());
                let name = trimmed(&slice(&left, 0, c));
                let ty = type_of_chars(&trimmed(&slice(&left, c + 1, left.len())));
                let ex = expr_of_chars(&slice(&rest4, e + 1, rest4.len()));
                return Ok((Stmt::VarDef(name, ty, ex), 1));
            }
        }
    }
    if starts_with(line, "print") {
        proof { reveal_strlit("print"); }
        let rest5 = slice(line, 5, line.len());
        match find_char(&rest5, '(') {
            Some(i) => {
                proof { lemma_find(rest5@, '('); }
                if i + 2 <= rest5.len() {
                    let inside = slice(&rest5, i + 1, rest5.len() - 1);
                    return Ok((Stmt::Print(Box::new(args_of_chars(&inside))), 1));
                } else {
                    return Err(SyntaxError { line: at });
                }
            },
            None => {
                let inside = trimmed(&rest5);
                return Ok((Stmt::Print(Box::new(args_of_chars(&inside))), 1));
            },
        }
    }
    if starts_with(line, "shell ") {
        proof { reveal_strlit("shell "); }
        let toks = tokens_of_chars(&slice(line, 6, line.len()));
        assert(texts_view(toks@) =~= tokens(line@.subrange(6, line@.len() as int)));
        return Ok((Stmt::Shell(toks), 1));
    }
    if starts_with(line, "if ") {
        proof { reveal_strlit("if "); reveal_strlit("then"); }
        let t = match find_str(line, "then") {
            Some(t) => t,
            None => { return Err(SyntaxError { line: at }); },
        };
        proof { lemma_find_text(line@, "then"@); }
        if t < 3 {
            return Err(SyntaxError { line: at });
        }
        let cond = expr_of_chars(&slice(line, 3, t));
        let (yes, j) = match parse_body(lines, at + 1, at, true) {
            Ok(x) => x,
            Err(e) => { return Err(e); },
        };
        if at < j && j < lines.len() && is_text(&trimmed(&lines[j]), "else") {
            assert(ls[j as int] == lines@[j as int]@);
            let (no, k) = match parse_body(lines, j + 1, at, false) {
                Ok(x) => x,
                Err(e) => { return Err(e); },
            };
            return Ok((Stmt::If(cond, Box::new(yes), Box::new(no)), k + 1 - at));
        }
        proof { if j < lines.len() { assert(ls[j as int] == lines@[j as int]@); } }
        assert(Stmts::Nil.view() == Seq::<StmtV>::empty());
        return Ok((Stmt::If(cond, Box::new(yes), Box::new(Stmts::Nil)), j + 1 - at));
    }
    if starts_with(line, "while ") {
        proof { reveal_strlit("while "); reveal_strlit("do"); }
        let d = match find_str(line, "do") {
            Some(d) => d,
            None => { return Err(SyntaxError { line: at }); },
        };
        proof { lemma_find_text(line@, "do"@); }
        if d < 6 {
            return Err(SyntaxError { line: at });
        }
        let cond = expr_of_chars(&slice(line, 6, d));
        let (body, j) = match parse_body(lines, at + 1, at, false) {
            Ok(x) => x,
            Err(e) => { return Err(e); },
        };
        return Ok((Stmt::While(cond, Box::new(body)), j + 1 - at));
    }
    if starts_with(line, "fn ") {
        proof { reveal_strlit("fn "); reveal_strlit(")->"); }
        let after = slice(line, 3, line.len());
        let (p, q) = match (find_char(&after, '('), find_char(&after, ')')) {
            (Some(p), Some(q)) => (p, q),
            _ => { return Err(SyntaxError { line: at }); },
        };
        proof { lemma_find(after@, '('); lemma_find(after@, ')'); }
        if p >= q {
            return Err(SyntaxError { line: at });
        }
        let ret = match find_str(&after, ")->") {
            Some(rp) => {
                proof { lemma_find_text(after@, ")->"@); }
                type_of_chars(&trimmed(&slice(&after, rp + 3, after.len())))
            },
            None => Type::Void,
        };
        let ps = params_of(&slice(&after, p + 1, q));
        let body = parse_body(lines, at + 1, at, false);
        match (ps, body) {
            (Ok(ps), Ok((body, j))) => {
                return Ok((Stmt::FuncDef(slice(&after, 0, p), ps, ret, Box::new(body)), j + 1 - at));
            },
            (Err(_), _) => { return Err(SyntaxError { line: at }); },
            (_, Err(e)) => { return Err(e); },
        }
    }
    Ok((Stmt::ExprStmt(expr_of_chars(line)), 1))
}

/// Parses the statements of a block body from line `i` up to the line
/// that ends it, giving them with that line's index.
pub fn parse_body(lines: &Vec<Vec<char>>, i: usize, hdr: usize, else_ends: bool) -> (r: Result<(Stmts, usize), SyntaxError>)
    ensures
        body_agrees(r, pbody(texts_view(lines@), i as int, hdr as int, else_ends)),
        r matches Ok((_, j)) ==> i <= j < lines.len(),
    decreases lines.len() - i, 1int,
{
    let ghost ls = texts_view(lines@);
    if i >= lines.len() {
        return Err(SyntaxError { line: hdr });
    }
    let t = trimmed(&lines[i]);
    assert(ls[i as int] == lines@[i as int]@);
    if is_text(&t, "end") || (else_ends && is_text(&t, "else")) {
        assert(Stmts::Nil.view() == Seq::<StmtV>::empty());
        return Ok((Stmts::Nil, i));
    }
    match parse_stmt(lines, i) {
        Ok((st, c)) => {
            match parse_body(lines, i + c, hdr, else_ends) {
                Ok((rest, j)) => {
                    let r = Stmts::Cons(Box::new(st), Box::new(rest));
                    assert(r.view() =~= seq![st.view()] + rest.view());
                    Ok((r, j))
                },
                Err(e) => Err(e),
            }
        },
        Err(e) => Err(e),
    }
}

/// The line `l` as a program keeps it: not if blank or a `#` comment.
pub open spec fn kept(l: Seq<char>) -> Seq<Seq<char>> {
    if l.len() > 0 && l[0] != '#' {
        seq![l]
    } else {
        Seq::empty()
    }
}

/// The trimmed lines of the source `t` that are neither blank nor
/// comments, in order.
pub open spec fn src_lines(t: Seq<char>) -> Seq<Seq<char>>
    decreases t.len(),
{
    proof { lemma_find(t, '\n'); }
    match find(t, '\n') {
        Some(i) => kept(trim(t.subrange(0, i))) + src_lines(t.subrange(i + 1, t.len() as int)),
        None => kept(trim(t)),
    }
}

/// The statements of `lines` from line `i` on, each parsed where the one
/// before it ended.
pub open spec fn pprog(lines: Seq<Seq<char>>, i: int) -> Result<Seq<StmtV>, int>
    decreases lines.len() - i,
{
    if i < 0 || i >= lines.len() {
        Ok(Seq::empty())
    } else {
        match pstmt(lines, i) {
            Ok((st, c)) => if c >= 1 && i + c <= lines.len() {
                match pprog(lines, i + c) {
                    Ok(rest) => Ok(seq![st] + rest),
                    Err(e) => Err(e),
                }
            } else {
                Err(i)
            },
            Err(e) => Err(e),
        }
    }
}

/// The program that the source text `src` holds.
pub open spec fn program(src: Seq<char>) -> Result<Seq<StmtV>, int> {
    pprog(src_lines(src), 0)
}

/// The view of a sequence of statements.
pub open spec fn stmts_view(v: Seq<Stmt>) -> Seq<StmtV> {
    v.map_values(|s: Stmt| s.view())
}

/// The first index at or after `from` at which `c` occurs in `v`.
fn find_from(v: &Vec<char>, from: usize, c: char) -> (r: Option<usize>)
    requires
        from <= v.len(),
    ensures
        r matches Some(i) ==> find(v@.subrange(from as int, v@.len() as int), c) == Some(i - from),
        r matches Some(i) ==> from <= i < v.len(),
        r is None ==> find(v@.subrange(from as int, v@.len() as int), c) is None,
{
    let ghost w = v@.subrange(from as int, v@.len() as int);
    let mut i: usize = from;
    while i < v.len()
        invariant
            from <= i <= v.len(),
            w == v@.subrange(from as int, v@.len() as int),
            forall|k: int| 0 <= k < i - from ==> w[k] != c,
        decreases v.len() - i,
    {
        if v[i] == c {
            proof { lemma_find_at(w, c, i - from); }
            return Some(i);
        }
        i += 1;
    }
    proof { lemma_find_at(w, c, i - from); }
    None
}

/// The kept lines of the source characters `v`.
pub fn lines_of(v: &Vec<char>) -> (r: Vec<Vec<char>>)
    ensures
        texts_view(r@) == src_lines(v@),
{
    let mut out: Vec<Vec<char>> = Vec::new();
    let mut pos: usize = 0;
    assert(v@.subrange(0, v@.len() as int) == v@);
    loop
        invariant
            pos <= v.len(),
            texts_view(out@) + src_lines(v@.subrange(pos as int, v@.len() as int)) == src_lines(v@),
        decreases v.len() - pos,
    {
        let ghost w = v@.subrange(pos as int, v@.len() as int);
        let ghost before = out@;
        match find_from(v, pos, '\n') {
            Some(i) => {
                let l = trimmed(&slice(v, pos, i));
                assert(v@.subrange(pos as int, i as int) =~= w.subrange(0, i - pos));
                assert(l@ == trim(w.subrange(0, i - pos)));
                assert(w.subrange(i - pos + 1, w.len() as int) == v@.subrange(i + 1, v@.len() as int));
                if l.len() > 0 && l[0] != '#' {
                    out.push(l);
                    assert(texts_view(out@) =~= texts_view(before) + kept(l@));
                } else {
                    assert(texts_view(out@) =~= texts_view(before) + kept(l@));
                }
                pos = i + 1;
            },
            None => {
                let l = trimmed(&slice(v, pos, v.len()));
                assert(l@ == trim(w));
                if l.len() > 0 && l[0] != '#' {
                    out.push(l);
                    assert(texts_view(out@) =~= texts_view(before) + kept(l@));
                } else {
                    assert(texts_view(out@) =~= texts_view(before) + kept(l@));
                }
                assert(texts_view(out@) =~= src_lines(v@));
                return out;
            },
        }
    }
}

/// Parses a whole program: blank lines and `#` comments are skipped, and
/// each statement starts where the one before it ended.
pub fn parse_program(src: &str) -> (r: Result<Vec<Stmt>, SyntaxError>)
    ensures
        match (r, program(src@)) {
            (Ok(a), Ok(b)) => stmts_view(a@) == b,
            (Err(e), Err(f)) => e.line as int == f,
            _ => false,
        },
{
    let v = chars_of(src);
    let lines = lines_of(&v);
    let ghost ls = texts_view(lines@);
    let mut out: Vec<Stmt> = Vec::new();
    let mut i: usize = 0;
    while i < lines.len()
        invariant
            i <= lines.len(),
            ls == texts_view(lines@),
            ls == src_lines(v@),
            v@ == src@,
            match pprog(ls, i as int) {
                Ok(rest) => pprog(ls, 0) == Ok::<Seq<StmtV>, int>(stmts_view(out@) + rest),
                Err(e) => pprog(ls, 0) == Err::<Seq<StmtV>, int>(e),
            },
        decreases lines.len() - i,
    {
        let ghost before = out@;
        match parse_stmt(&lines, i) {
            Ok((st, c)) => {
                out.push(st);
                assert(stmts_view(out@) =~= stmts_view(before) + seq![st.view()]);
                proof {
                    match pprog(ls, (i + c) as int) {
                        Ok(rest) => { assert(stmts_view(out@) + rest =~= stmts_view(before) + (seq![st.view()] + rest)); },
                        Err(_) => {},
                    }
                }
                i = i + c;
            },
            Err(e) => {
                return Err(e);
            },
        }
    }
    assert(stmts_view(out@) + Seq::<StmtV>::empty() =~= stmts_view(out@));
    Ok(out)
}

/// The trimmed, non-blank pieces of an interactive line split at `;`.
pub open spec fn line_parts(t: Seq<char>) -> Seq<Seq<char>>
    decreases t.len(),
{
    proof { lemma_find(t, ';'); }
    let nonblank = |l: Seq<char>| if l.len() > 0 { seq![l] } else { Seq::<Seq<char>>::empty() };
    match find(t, ';') {
        Some(i) => nonblank(trim(t.subrange(0, i))) + line_parts(t.subrange(i + 1, t.len() as int)),
        None => nonblank(trim(t)),
    }
}

fn parts_of(v: &Vec<char>) -> (r: Vec<Vec<char>>)
    ensures
        texts_view(r@) == line_parts(v@),
{
    let mut out: Vec<Vec<char>> = Vec::new();
    let mut pos: usize = 0;
    assert(v@.subrange(0, v@.len() as int) == v@);
    loop
        invariant
            pos <= v.len(),
            texts_view(out@) + line_parts(v@.subrange(pos as int, v@.len() as int)) == line_parts(v@),
        decreases v.len() - pos,
    {
        let ghost w = v@.subrange(pos as int, v@.len() as int);
        let ghost before = out@;
        let end = match find_from(v, pos, ';') {
            Some(i) => i,
            None => v.len(),
        };
        assert(v@.subrange(pos as int, end as int) =~= w.subrange(0, end - pos));
        let l = trimmed(&slice(v, pos, end));
        if l.len() > 0 {
            out.push(l);
        }
        assert(texts_view(out@) =~= texts_view(before) + (if l@.len() > 0 { seq![l@] } else { Seq::<Seq<char>>::empty() }));
        if end == v.len() {
            assert(w.subrange(0, end - pos) == w);
            assert(texts_view(out@) =~= line_parts(v@));
            return out;
        }
        assert(w.subrange(end - pos + 1, w.len() as int) == v@.subrange(end + 1, v@.len() as int));
        pos = end + 1;
    }
}

/// Parses one interactive line: its `;`-separated pieces, blank ones
/// skipped, each a statement of one line. `Err` holds the index of the
/// first piece that does not parse.
pub fn parse_line(line: &str) -> (r: Result<Vec<Stmt>, SyntaxError>)
    ensures
        match r {
            Ok(v) => v@.len() == line_parts(line@).len() && forall|i: int|
                0 <= i < v@.len() ==> pstmt(seq![line_parts(line@)[i]], 0) == Ok::<(StmtV, int), int>(
                    (#[trigger] v@[i].view(), 1),
                ),
            Err(e) => e.line < line_parts(line@).len() && pstmt(seq![line_parts(line@)[e.line as int]], 0) is Err
                && forall|i: int| 0 <= i < e.line ==> pstmt(seq![#[trigger] line_parts(line@)[i]], 0) is Ok,
        },
{
    let v = chars_of(line);
    let parts = parts_of(&v);
    let ghost ps = line_parts(line@);
    let mut out: Vec<Stmt> = Vec::new();
    let mut i: usize = 0;
    while i < parts.len()
        invariant
            i <= parts.len(),
            texts_view(parts@) == ps,
            ps == line_parts(line@),
            out@.len() == i,
            forall|k: int| 0 <= k < i ==> pstmt(seq![ps[k]], 0) == Ok::<(StmtV, int), int>((#[trigger] out@[k].view(), 1)),
        decreases parts.len() - i,
    {
        let mut one: Vec<Vec<char>> = Vec::new();
        one.push(crate::ast::copy_chars(&parts[i]));
        assert(texts_view(one@) =~= seq![ps[i as int]]);
        match parse_stmt(&one, 0) {
            Ok((st, _)) => {
                out.push(st);
                i += 1;
            },
            Err(_) => {
                assert forall|k: int| 0 <= k < i implies pstmt(seq![#[trigger] ps[k]], 0) is Ok by {
                    assert(pstmt(seq![ps[k]], 0) == Ok::<(StmtV, int), int>((out@[k].view(), 1)));
                }
                assert(pstmt(seq![ps[i as int]], 0) is Err);
                return Err(SyntaxError { line: i });
            },
        }
    }
    Ok(out)
}

} // verus!
