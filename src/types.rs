//! Static types and their surface syntax.
use vstd::prelude::*;
use crate::text::{chars_of, is_text, slice, starts, starts_with};

verus! {

/// The static type of a value or a declaration.
#[derive(Debug, PartialEq, Eq)]
pub enum Type {
    Int,
    Float,
    Bool,
    Str,
    List(Box<Type>),
    Void,
    /// Parameter types and return type of a function.
    Func(Box<TypeList>, Box<Type>),
}

/// A sequence of types, as a linked list.
#[derive(Debug, PartialEq, Eq)]
pub enum TypeList {
    Nil,
    Cons(Box<Type>, Box<TypeList>),
}

impl Type {
    /// Whether `self` and `o` are the same type.
    pub fn same_type(&self, o: &Type) -> (r: bool)
        ensures
            r == (*self == *o),
        decreases self,
    {
        match (self, o) {
            (Type::Int, Type::Int) => true,
            (Type::Float, Type::Float) => true,
            (Type::Bool, Type::Bool) => true,
            (Type::Str, Type::Str) => true,
            (Type::Void, Type::Void) => true,
            (Type::List(a), Type::List(b)) => (**a).same_type(&**b),
            (Type::Func(ps, r), Type::Func(qs, s)) => (**ps).same_types(&**qs) && (**r).same_type(
                &**s,
            ),
            _ => false,
        }
    }

    /// A copy of the type.
    pub fn copy(&self) -> (r: Type)
        ensures
            r == *self,
        decreases self,
    {
        match self {
            Type::Int => Type::Int,
            Type::Float => Type::Float,
            Type::Bool => Type::Bool,
            Type::Str => Type::Str,
            Type::Void => Type::Void,
            Type::List(a) => Type::List(Box::new((**a).copy())),
            Type::Func(ps, r) => Type::Func(Box::new((**ps).copy_all()), Box::new((**r).copy())),
        }
    }
}

impl TypeList {
    /// Whether `self` and `o` hold the same types in the same order.
    pub fn same_types(&self, o: &TypeList) -> (r: bool)
        ensures
            r == (*self == *o),
        decreases self,
    {
        match (self, o) {
            (TypeList::Nil, TypeList::Nil) => true,
            (TypeList::Cons(a, x), TypeList::Cons(b, y)) => (**a).same_type(&**b) && (**x).same_types(
                &**y,
            ),
            _ => false,
        }
    }

    /// A copy of the list.
    pub fn copy_all(&self) -> (r: TypeList)
        ensures
            r == *self,
        decreases self,
    {
        match self {
            TypeList::Nil => TypeList::Nil,
            TypeList::Cons(a, x) => TypeList::Cons(Box::new((**a).copy()), Box::new((**x).copy_all())),
        }
    }
}

/// `c` with an upper-case ASCII letter turned to lower case.
pub open spec fn fold(c: char) -> char {
    if 'A' <= c <= 'Z' {
        ((c as u8) + 32) as char
    } else {
        c
    }
}

/// `s` with ASCII letters in lower case.
pub open spec fn folded(s: Seq<char>) -> Seq<char> {
    s.map_values(|c: char| fold(c))
}

/// The type that the text `s` names, ignoring ASCII case: `int`, `float`,
/// `bool`, `str` or `string`, `list<T>` for any text `T`; anything else is
/// `Void`.
pub open spec fn type_of_text(s: Seq<char>) -> Type
    decreases s.len(),
{
    let t = folded(s);
    if t == "int"@ {
        Type::Int
    } else if t == "float"@ {
        Type::Float
    } else if t == "bool"@ {
        Type::Bool
    } else if t == "str"@ || t == "string"@ {
        Type::Str
    } else if starts(t, "list<"@) && t.len() >= 6 && t.last() == '>' {
        Type::List(Box::new(type_of_text(t.subrange(5, t.len() - 1))))
    } else {
        Type::Void
    }
}

pub fn fold_chars(v: &Vec<char>) -> (r: Vec<char>)
    ensures
        r@ == folded(v@),
{
    let mut r: Vec<char> = Vec::new();
    let mut i: usize = 0;
    while i < v.len()
        invariant
            i <= v.len(),
            r@ == folded(v@.take(i as int)),
        decreases v.len() - i,
    {
        let c = v[i];
        let d = if 'A' <= c && c <= 'Z' { ((c as u8) + 32) as char } else { c };
        r.push(d);
        assert(folded(v@.take(i + 1)) =~= folded(v@.take(i as int)).push(d));
        i += 1;
    }
    assert(v@.take(v.len() as int) == v@);
    r
}

/// The type named by the characters `v`.
pub fn type_of_chars(v: &Vec<char>) -> (r: Type)
    ensures
        r == type_of_text(v@),
    decreases v@.len(),
{
    let t = fold_chars(v);
    proof { assert(t@.len() == v@.len()); }
    if is_text(&t, "int") {
        Type::Int
    } else if is_text(&t, "float") {
        Type::Float
    } else if is_text(&t, "bool") {
        Type::Bool
    } else if is_text(&t, "str") || is_text(&t, "string") {
        Type::Str
    } else if starts_with(&t, "list<") && t.len() >= 6 && t[t.len() - 1] == '>' {
        let inner = slice(&t, 5, t.len() - 1);
        Type::List(Box::new(type_of_chars(&inner)))
    } else {
        Type::Void
    }
}

/// The type named by the declaration text `s`.
pub fn parse_type(s: &str) -> (r: Type)
    ensures
        r == type_of_text(s@),
{
    let v = chars_of(s);
    type_of_chars(&v)
}

} // verus!
