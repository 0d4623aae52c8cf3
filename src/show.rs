//! Display forms of values and output lines.
use vstd::prelude::*;
use crate::ast::{Value, ValueV};
use crate::context::{heap_view, values_view};
use crate::eval::FloatHost;
use crate::text::{chars_of, string_of};

verus! {

pub open spec fn digit_char(d: nat) -> char {
    ((d + 48) as u8) as char
}

/// The decimal digits of `n`.
pub open spec fn digits(n: nat) -> Seq<char>
    decreases n,
{
    if n < 10 {
        seq![digit_char(n)]
    } else {
        digits(n / 10).push(digit_char(n % 10))
    }
}

/// The decimal text of `i`, with a `-` when negative.
pub open spec fn decimal(i: int) -> Seq<char> {
    if i < 0 {
        seq!['-'] + digits((-i) as nat)
    } else {
        digits(i as nat)
    }
}

pub open spec fn measure(v: ValueV) -> nat {
    match v {
        ValueV::List(h) => h + 1,
        _ => 0,
    }
}

/// The display form of a value, reading lists in `heap`: a list is its
/// items separated by `, ` in brackets. `None` where a float is reached,
/// whose form only the host knows.
pub open spec fn show(v: ValueV, heap: Seq<Seq<ValueV>>) -> Option<Seq<char>>
    decreases measure(v), 1nat, 0nat,
{
    match v {
        ValueV::Int(i) => Some(decimal(i as int)),
        ValueV::Float => None,
        ValueV::Bool(b) => Some(if b { "true"@ } else { "false"@ }),
        ValueV::Str(s) => Some(s),
        ValueV::List(h) => if h < heap.len() {
            match show_items(heap[h as int], heap, h, 0) {
                Some(t) => Some(seq!['['] + t + seq![']']),
                None => None,
            }
        } else {
            Some("[]"@)
        },
    }
}

/// The display forms of `items` from index `i` on, separated by `, `.
/// An item that is a list made after the list `h` that holds it shows
/// as `[]`.
pub open spec fn show_items(items: Seq<ValueV>, heap: Seq<Seq<ValueV>>, h: nat, i: nat) -> Option<Seq<char>>
    decreases h + 1, 0nat, items.len() - i,
{
    if i >= items.len() {
        Some(Seq::empty())
    } else {
        let first = match items[i as int] {
            ValueV::List(k) => if k < h {
                show(items[i as int], heap)
            } else {
                Some("[]"@)
            },
            x => show(x, heap),
        };
        let sep = if i + 1 < items.len() { ", "@ } else { Seq::empty() };
        match (first, show_items(items, heap, h, i + 1)) {
            (Some(a), Some(b)) => Some(a + sep + b),
            _ => None,
        }
    }
}

/// The characters of `i` in decimal.
pub fn decimal_chars(i: i64) -> (r: Vec<char>)
    ensures
        r@ == decimal(i as int),
{
    let mut n: u64 = if i < 0 { (-(i as i128)) as u64 } else { i as u64 };
    let ghost n0 = n as nat;
    let mut ds: Vec<char> = Vec::new();
    assert(n0 == if i < 0 { -(i as int) } else { i as int });
    assert(digits(n0) =~= digits(n as nat) + ds@);
    loop
        invariant_except_break
            digits(n0) == digits(n as nat) + ds@,
        ensures
            digits(n0) == ds@,
        decreases n,
    {
        let d = n % 10;
        let c = ((d + 48) as u8) as char;
        if n < 10 {
            assert(digits(n as nat) == seq![c]);
            let ghost old_ds = ds@;
            ds.insert(0, c);
            assert(ds@ == seq![c] + old_ds);
            assert(digits(n0) =~= ds@);
            break;
        }
        let ghost old_ds = ds@;
        ds.insert(0, c);
        assert(digits(n as nat) == digits((n / 10) as nat).push(c));
        assert(digits(n0) =~= digits((n / 10) as nat) + ds@);
        n = n / 10;
    }
    if i < 0 {
        let ghost old_ds = ds@;
        ds.insert(0, '-');
        assert(ds@ =~= seq!['-'] + old_ds);
    }
    ds
}

fn append_chars(dst: &mut Vec<char>, src: &Vec<char>)
    ensures
        final(dst)@ == old(dst)@ + src@,
{
    let mut i: usize = 0;
    while i < src.len()
        invariant
            i <= src.len(),
            dst@ == old(dst)@ + src@.take(i as int),
        decreases src.len() - i,
    {
        dst.push(src[i]);
        assert(src@.take(i + 1) == src@.take(i as int).push(src@[i as int]));
        i += 1;
    }
    assert(src@.take(src.len() as int) == src@);
}

/// The display form of `v`, reading lists in `heap`.
pub fn show_chars<H: FloatHost>(v: &Value, heap: &Vec<Vec<Value>>, host: &H) -> (r: Vec<char>)
    ensures
        show(v@, heap_view(heap@)) matches Some(t) ==> r@ == t,
    decreases measure(v@), 1nat, 0nat,
{
    match v {
        Value::Int(i) => decimal_chars(*i),
        Value::Float(x) => {
            let s = host.float_text(*x);
            chars_of(s.as_str())
        },
        Value::Bool(b) => if *b { chars_of("true") } else { chars_of("false") },
        Value::Str(s) => crate::ast::copy_chars(s),
        Value::List(h) => {
            if *h < heap.len() {
                let mut out: Vec<char> = Vec::new();
                out.push('[');
                let items = show_items_chars(&heap[*h], heap, *h, 0, host);
                assert(heap_view(heap@)[*h as int] == values_view(heap@[*h as int]@));
                append_chars(&mut out, &items);
                out.push(']');
                proof {
                    if show(v@, heap_view(heap@)) is Some {
                        assert(out@ =~= seq!['['] + items@ + seq![']']);
                    }
                }
                out
            } else {
                proof { reveal_strlit("[]"); }
                chars_of("[]")
            }
        },
    }
}

fn show_items_chars<H: FloatHost>(items: &Vec<Value>, heap: &Vec<Vec<Value>>, h: usize, i: usize, host: &H) -> (r: Vec<char>)
    requires
        i <= items.len(),
    ensures
        show_items(values_view(items@), heap_view(heap@), h as nat, i as nat) matches Some(t) ==> r@ == t,
    decreases h + 1, 0nat, items.len() - i,
{
    if i >= items.len() {
        return Vec::new();
    }
    let ghost iv = values_view(items@);
    assert(iv[i as int] == items@[i as int]@);
    let mut first = match &items[i] {
        Value::List(k) => if *k < h {
            show_chars(&items[i], heap, host)
        } else {
            chars_of("[]")
        },
        x => show_chars(x, heap, host),
    };
    if i + 1 < items.len() {
        append_chars(&mut first, &chars_of(", "));
    }
    let rest = show_items_chars(items, heap, h, i + 1, host);
    append_chars(&mut first, &rest);
    first
}

/// The output line for a printed list of values: their display forms
/// separated by single spaces.
pub open spec fn line_text(vs: Seq<ValueV>, heap: Seq<Seq<ValueV>>) -> Option<Seq<char>>
    decreases vs.len(),
{
    if vs.len() == 0 {
        Some(Seq::empty())
    } else {
        let sep = if vs.len() > 1 { seq![' '] } else { Seq::empty() };
        match (show(vs[0], heap), line_text(vs.drop_first(), heap)) {
            (Some(a), Some(b)) => Some(a + sep + b),
            _ => None,
        }
    }
}

/// The output line for printed values, reading lists in `heap`.
pub fn render_line<H: FloatHost>(vs: &Vec<Value>, heap: &Vec<Vec<Value>>, host: &H) -> (r: String)
    ensures
        line_text(values_view(vs@), heap_view(heap@)) matches Some(t) ==> r@ == t,
{
    let mut out: Vec<char> = Vec::new();
    let mut i: usize = vs.len();
    while i > 0
        invariant
            i <= vs.len(),
            line_text(values_view(vs@).subrange(i as int, vs@.len() as int), heap_view(heap@)) matches Some(t) ==> out@ == t,
        decreases i,
    {
        let ghost tail = values_view(vs@).subrange(i as int, vs@.len() as int);
        let ghost cur = values_view(vs@).subrange(i - 1, vs@.len() as int);
        assert(cur.drop_first() =~= tail);
        assert(cur[0] == vs@[i - 1]@);
        let mut piece = show_chars(&vs[i - 1], heap, host);
        if i < vs.len() {
            piece.push(' ');
        }
        append_chars(&mut piece, &out);
        out = piece;
        i -= 1;
    }
    assert(values_view(vs@).subrange(0, vs@.len() as int) =~= values_view(vs@));
    string_of(&out)
}

} // verus!
