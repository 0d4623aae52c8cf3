//! Quote-aware splitting of a command line into arguments.
use vstd::prelude::*;
use crate::text::{chars_of, string_of};

verus! {

/// State of the splitter: finished tokens, the token being built, and
/// whether a double quote is open.
pub type LexState = (Seq<Seq<char>>, Seq<char>, bool);

/// One character's effect on the splitter's state.
pub open spec fn lex_step(st: LexState, c: char) -> LexState {
    if c == '"' {
        (st.0, st.1.push(c), !st.2)
    } else if c == ' ' && !st.2 {
        if st.1.len() > 0 {
            (st.0.push(st.1), Seq::empty(), st.2)
        } else {
            st
        }
    } else {
        (st.0, st.1.push(c), st.2)
    }
}

/// The splitter's state after reading all of `s`.
pub open spec fn lex_state(s: Seq<char>) -> LexState
    decreases s.len(),
{
    if s.len() == 0 {
        (Seq::empty(), Seq::empty(), false)
    } else {
        lex_step(lex_state(s.drop_last()), s.last())
    }
}

/// The tokens of `s`: split on spaces outside double quotes, quotes kept,
/// empty tokens dropped, an unfinished last token included.
pub open spec fn tokens(s: Seq<char>) -> Seq<Seq<char>> {
    let st = lex_state(s);
    if st.1.len() > 0 {
        st.0.push(st.1)
    } else {
        st.0
    }
}

/// Splits the characters `v` into tokens.
pub fn tokens_of_chars(v: &Vec<char>) -> (r: Vec<Vec<char>>)
    ensures
        r@.len() == tokens(v@).len(),
        forall|i: int| 0 <= i < r@.len() ==> #[trigger] r@[i]@ == tokens(v@)[i],
{
    let ghost s = v@;
    let mut toks: Vec<Vec<char>> = Vec::new();
    let mut cur: Vec<char> = Vec::new();
    let mut in_str = false;
    let mut i: usize = 0;
    while i < v.len()
        invariant
            i <= v.len(),
            v@ == s,
            toks@.len() == lex_state(v@.take(i as int)).0.len(),
            forall|k: int| 0 <= k < toks@.len() ==> #[trigger] toks@[k]@ == lex_state(v@.take(i as int)).0[k],
            cur@ == lex_state(v@.take(i as int)).1,
            in_str == lex_state(v@.take(i as int)).2,
        decreases v.len() - i,
    {
        let c = v[i];
        assert(v@.take(i + 1).drop_last() == v@.take(i as int));
        if c == '"' {
            in_str = !in_str;
            cur.push(c);
        } else if c == ' ' && !in_str {
            if cur.len() > 0 {
                toks.push(cur);
                cur = Vec::new();
            }
        } else {
            cur.push(c);
        }
        i += 1;
    }
    assert(v@.take(v.len() as int) == v@);
    if cur.len() > 0 {
        toks.push(cur);
    }
    toks
}

/// Splits `s` into the arguments of an external command.
pub fn tokenize(s: &str) -> (r: Vec<String>)
    ensures
        r.len() == tokens(s@).len(),
        forall|i: int| 0 <= i < r.len() ==> #[trigger] r[i]@ == tokens(s@)[i],
{
    let v = chars_of(s);
    let toks = tokens_of_chars(&v);
    let mut r: Vec<String> = Vec::new();
    let mut j: usize = 0;
    while j < toks.len()
        invariant
            j <= toks.len(),
            r.len() == j,
            forall|k: int| 0 <= k < j ==> #[trigger] r[k]@ == toks@[k]@,
        decreases toks.len() - j,
    {
        r.push(string_of(&toks[j]));
        j += 1;
    }
    r
}

} // verus!
