//! The execution context: variables, declared types, functions, the shell
//! path, the list heap and the log of effects.
use vstd::prelude::*;
use crate::ast::{params_view, texts_view, Stmts, StmtV, Value, ValueV};
use crate::ast::copy_chars;
use crate::env::{amap, find_last, set_entry};
use crate::text::{chars_of, string_of};
use crate::types::Type;

verus! {

/// Why a statement was rejected before it ran.
#[derive(PartialEq, Eq, Structural, Clone, Copy, Debug)]
pub enum TypeError {
    /// A variable without a declared type.
    UnknownVar,
    /// An initializer whose type differs from the declared one.
    Mismatch,
    /// The two sides of an operator have different types.
    BinOpMismatch,
    /// A condition that is not a `bool`.
    CondNotBool,
    /// A function call, which has no type.
    CallNotTyped,
}

/// Why a statement stopped or an expression had no value.
#[derive(PartialEq, Eq, Structural, Clone, Copy, Debug)]
pub enum RunError {
    Type(TypeError),
    /// An expression that has no value.
    NoValue,
    DivisionByZero,
    /// An integer result out of the 64-bit range.
    Overflow,
    /// A loop ran out of its step budget.
    OutOfSteps,
}

/// An observable effect of running a statement, in order.
#[derive(Debug, PartialEq, Eq)]
pub enum Effect {
    /// One output line holding these values, separated by spaces.
    Print(Vec<Value>),
    /// An external command and its arguments.
    Run(Vec<Vec<char>>),
    Clear,
    Help,
    /// A statement that failed; the run goes on with the next one.
    Error(RunError),
}

pub enum EffectV {
    Print(Seq<ValueV>),
    Run(Seq<Seq<char>>),
    Clear,
    Help,
    Error(RunError),
}

impl View for Effect {
    type V = EffectV;

    open spec fn view(&self) -> EffectV {
        match self {
            Effect::Print(vs) => EffectV::Print(values_view(vs@)),
            Effect::Run(args) => EffectV::Run(texts_view(args@)),
            Effect::Clear => EffectV::Clear,
            Effect::Help => EffectV::Help,
            Effect::Error(e) => EffectV::Error(*e),
        }
    }
}

pub open spec fn values_view(v: Seq<Value>) -> Seq<ValueV> {
    v.map_values(|x: Value| x@)
}

/// A function as the type checker records it.
#[derive(Debug)]
pub struct FuncDef {
    pub params: Vec<(Vec<char>, Type)>,
    pub ret: Type,
    pub body: Stmts,
}

/// The view of a recorded function.
pub type FuncV = (Seq<(Seq<char>, Type)>, Type, Seq<StmtV>);

/// The view of a context.
pub struct World {
    pub vars: Map<Seq<char>, ValueV>,
    pub types: Map<Seq<char>, Type>,
    pub funcs: Map<Seq<char>, FuncV>,
    pub shell: Seq<char>,
    pub heap: Seq<Seq<ValueV>>,
    pub effects: Seq<EffectV>,
}

/// The mutable state of one run.
#[derive(Debug)]
pub struct Context {
    pub vars: Vec<(Vec<char>, Value)>,
    pub types: Vec<(Vec<char>, Type)>,
    pub funcs: Vec<(Vec<char>, FuncDef)>,
    pub shell: Vec<char>,
    pub heap: Vec<Vec<Value>>,
    pub effects: Vec<Effect>,
}

pub open spec fn funcs_view(f: Map<Seq<char>, FuncDef>) -> Map<Seq<char>, FuncV> {
    f.map_values(|d: FuncDef| (params_view(d.params@), d.ret, d.body.view()))
}

pub open spec fn heap_view(h: Seq<Vec<Value>>) -> Seq<Seq<ValueV>> {
    h.map_values(|l: Vec<Value>| values_view(l@))
}

/// Whether every list holds only lists made before it.
pub open spec fn heap_wf(h: Seq<Seq<ValueV>>) -> bool {
    forall|i: int, j: int|
        0 <= i < h.len() && 0 <= j < h[i].len() ==> (#[trigger] h[i][j] matches ValueV::List(k) ==> k
            < i)
}

impl Context {
    pub open spec fn view(&self) -> World {
        World {
            vars: amap(self.vars@).map_values(|v: Value| v@),
            types: amap(self.types@),
            funcs: funcs_view(amap(self.funcs@)),
            shell: self.shell@,
            heap: heap_view(self.heap@),
            effects: self.effects@.map_values(|e: Effect| e@),
        }
    }

    pub open spec fn wf(&self) -> bool {
        heap_wf(self.view().heap)
    }

    /// A fresh context: nothing bound, the shell path `/bin/sh`.
    pub fn new() -> (r: Context)
        ensures
            r.view() == (World {
                vars: Map::empty(),
                types: Map::empty(),
                funcs: Map::empty(),
                shell: "/bin/sh"@,
                heap: Seq::empty(),
                effects: Seq::empty(),
            }),
            r.wf(),
    {
        let r = Context {
            vars: Vec::new(),
            types: Vec::new(),
            funcs: Vec::new(),
            shell: chars_of("/bin/sh"),
            heap: Vec::new(),
            effects: Vec::new(),
        };
        assert(r.view().vars =~= Map::empty());
        assert(r.view().funcs =~= Map::empty());
        assert(r.view().heap =~= Seq::empty());
        assert(r.view().effects =~= Seq::empty());
        r
    }

    /// The value of the variable `name`, if it has one.
    pub fn get_var(&self, name: &str) -> (r: Option<Value>)
        ensures
            match r {
                Some(v) => self.view().vars.contains_key(name@) && self.view().vars[name@] == v@,
                None => !self.view().vars.contains_key(name@),
            },
    {
        let n = chars_of(name);
        match find_last(&self.vars, &n) {
            Some(j) => Some(self.vars[j].1.copy()),
            None => None,
        }
    }

    /// The declared type of the variable `name`, if it has one.
    pub fn get_type(&self, name: &str) -> (r: Option<Type>)
        ensures
            match r {
                Some(t) => self.view().types.contains_key(name@) && self.view().types[name@] == t,
                None => !self.view().types.contains_key(name@),
            },
    {
        let n = chars_of(name);
        match find_last(&self.types, &n) {
            Some(j) => Some(self.types[j].1.copy()),
            None => None,
        }
    }

    /// Whether a function called `name` is recorded.
    pub fn has_func(&self, name: &str) -> (r: bool)
        ensures
            r == self.view().funcs.contains_key(name@),
    {
        let n = chars_of(name);
        find_last(&self.funcs, &n).is_some()
    }

    /// The path of the shell.
    pub fn shell_path(&self) -> (r: String)
        ensures
            r@ == self.view().shell,
    {
        string_of(&self.shell)
    }

    /// Declares `name` with type `t` and binds it to `v`.
    pub fn define(&mut self, name: &str, t: Type, v: Value)
        ensures
            final(self).view() == (World {
                vars: old(self).view().vars.insert(name@, v@),
                types: old(self).view().types.insert(name@, t),
                ..old(self).view()
            }),
    {
        let ghost vv = v@;
        let n = chars_of(name);
        set_entry(&mut self.types, copy_chars(&n), t);
        set_entry(&mut self.vars, n, v);
        assert(self.view().vars =~= old(self).view().vars.insert(name@, vv));
        assert(self.view() =~= (World {
            vars: old(self).view().vars.insert(name@, vv),
            types: old(self).view().types.insert(name@, t),
            ..old(self).view()
        }));
    }

    /// Makes a new list holding `items` and gives its handle; `None` if
    /// an item is a list that does not exist yet.
    pub fn new_list(&mut self, items: Vec<Value>) -> (r: Option<usize>)
        requires
            old(self).wf(),
        ensures
            final(self).wf(),
            match r {
                Some(h) => h == old(self).view().heap.len() && final(self).view() == (World {
                    heap: old(self).view().heap.push(values_view(items@)),
                    ..old(self).view()
                }),
                None => final(self).view() == old(self).view() && exists|j: int|
                    0 <= j < items@.len() && (#[trigger] items@[j]@ matches ValueV::List(k) ==> k
                        >= old(self).view().heap.len()) && items@[j] is List,
            },
    {
        let h = self.heap.len();
        let mut i: usize = 0;
        while i < items.len()
            invariant
                i <= items.len(),
                h == self.heap.len(),
                *self == *old(self),
                old(self).wf(),
                forall|j: int| 0 <= j < i ==> (#[trigger] items@[j]@ matches ValueV::List(k) ==> k < h),
            decreases items.len() - i,
        {
            if let Value::List(k) = &items[i] {
                if *k >= h {
                    assert(items@[i as int]@ matches ValueV::List(k) ==> k >= old(self).view().heap.len());
                    return None;
                }
            }
            i += 1;
        }
        let ghost iv = values_view(items@);
        self.heap.push(items);
        assert(self.view().heap =~= old(self).view().heap.push(iv));
        assert(self.view() =~= (World { heap: old(self).view().heap.push(iv), ..old(self).view() }));
        Some(h)
    }

    /// Appends `v` to the list `h`; every binding that holds `h` sees it.
    /// Refused (`false`, nothing changed) if `h` does not exist or `v` is
    /// a list made after `h`.
    pub fn list_push(&mut self, h: usize, v: Value) -> (r: bool)
        requires
            old(self).wf(),
        ensures
            final(self).wf(),
            r == (h < old(self).view().heap.len() && !(v@ matches ValueV::List(k) && k >= h)),
            r ==> final(self).view() == push_item(old(self).view(), h as nat, v@),
            !r ==> final(self).view() == old(self).view(),
    {
        if h >= self.heap.len() {
            return false;
        }
        if let Value::List(k) = &v {
            if *k >= h {
                return false;
            }
        }
        let ghost vv = v@;
        let mut items: Vec<Value> = Vec::new();
        self.heap.set_and_swap(h, &mut items);
        let ghost before = items@;
        items.push(v);
        self.heap.set(h, items);
        assert(values_view(items@) =~= values_view(before).push(vv));
        assert(self.view().heap =~= old(self).view().heap.update(h as int, old(self).view().heap[h as int].push(vv)));
        assert(self.view() =~= push_item(old(self).view(), h as nat, vv));
        true
    }

    /// The items of the list `h`, if it exists.
    pub fn list_items(&self, h: usize) -> (r: Option<Vec<Value>>)
        ensures
            match r {
                Some(v) => h < self.view().heap.len() && values_view(v@) == self.view().heap[h as int],
                None => h >= self.view().heap.len(),
            },
    {
        if h >= self.heap.len() {
            return None;
        }
        let src = &self.heap[h];
        let mut out: Vec<Value> = Vec::new();
        let mut i: usize = 0;
        while i < src.len()
            invariant
                i <= src.len(),
                values_view(out@) =~= values_view(src@).take(i as int),
            decreases src.len() - i,
        {
            let ghost before = out@;
            let x = src[i].copy();
            out.push(x);
            assert(values_view(out@) =~= values_view(before).push(x@));
            i += 1;
        }
        assert(values_view(src@).take(src.len() as int) =~= values_view(src@));
        Some(out)
    }

    /// Hands over the effects logged so far, leaving the log empty.
    pub fn take_effects(&mut self) -> (r: Vec<Effect>)
        ensures
            r@.map_values(|e: Effect| e@) == old(self).view().effects,
            final(self).view() == (World { effects: Seq::empty(), ..old(self).view() }),
    {
        let mut r: Vec<Effect> = Vec::new();
        std::mem::swap(&mut r, &mut self.effects);
        assert(self.view().effects =~= Seq::<EffectV>::empty());
        assert(self.view() =~= (World { effects: Seq::empty(), ..old(self).view() }));
        r
    }
}

/// `w` with `v` appended to the list `h`.
pub open spec fn push_item(w: World, h: nat, v: ValueV) -> World {
    World { heap: w.heap.update(h as int, w.heap[h as int].push(v)), ..w }
}

} // verus!
