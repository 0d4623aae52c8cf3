//! Association lists keyed by names, viewed as maps.
use vstd::prelude::*;
use crate::text::same_chars;

verus! {

/// The map that an association list stands for: a later entry for a name
/// hides an earlier one.
pub open spec fn amap<V>(s: Seq<(Vec<char>, V)>) -> Map<Seq<char>, V>
    decreases s.len(),
{
    if s.len() == 0 {
        Map::empty()
    } else {
        amap(s.drop_last()).insert(s.last().0@, s.last().1)
    }
}

/// Whether `j` is the last index of `s` with the name `k`.
pub open spec fn last_at<V>(s: Seq<(Vec<char>, V)>, k: Seq<char>, j: int) -> bool {
    0 <= j < s.len() && s[j].0@ == k && forall|i: int| j < i < s.len() ==> s[i].0@ != k
}

pub proof fn lemma_amap_at<V>(s: Seq<(Vec<char>, V)>, k: Seq<char>, j: int)
    requires
        last_at(s, k, j),
    ensures
        amap(s).contains_key(k),
        amap(s)[k] == s[j].1,
    decreases s.len(),
{
    if j < s.len() - 1 {
        lemma_amap_at(s.drop_last(), k, j);
    }
}

pub proof fn lemma_amap_none<V>(s: Seq<(Vec<char>, V)>, k: Seq<char>)
    requires
        forall|i: int| 0 <= i < s.len() ==> s[i].0@ != k,
    ensures
        !amap(s).contains_key(k),
    decreases s.len(),
{
    if s.len() > 0 {
        lemma_amap_none(s.drop_last(), k);
    }
}

pub proof fn lemma_amap_update<V>(s: Seq<(Vec<char>, V)>, j: int, e: (Vec<char>, V))
    requires
        last_at(s, e.0@, j),
    ensures
        amap(s.update(j, e)) == amap(s).insert(e.0@, e.1),
    decreases s.len(),
{
    let t = s.update(j, e);
    if j == s.len() - 1 {
        assert(t.drop_last() == s.drop_last());
        assert(amap(t) =~= amap(s).insert(e.0@, e.1));
    } else {
        assert(t.drop_last() == s.drop_last().update(j, e));
        lemma_amap_update(s.drop_last(), j, e);
        assert(amap(t) =~= amap(s).insert(e.0@, e.1));
    }
}

/// The last index of `s` whose name is `k`.
pub fn find_last<V>(s: &Vec<(Vec<char>, V)>, k: &Vec<char>) -> (r: Option<usize>)
    ensures
        r matches Some(j) ==> last_at(s@, k@, j as int) && amap(s@).contains_key(k@) && amap(s@)[k@]
            == s@[j as int].1,
        r is None ==> !amap(s@).contains_key(k@),
{
    let mut i: usize = s.len();
    while i > 0
        invariant
            i <= s.len(),
            forall|m: int| i <= m < s.len() ==> s@[m].0@ != k@,
        decreases i,
    {
        if same_chars(&s[i - 1].0, k) {
            proof { lemma_amap_at(s@, k@, i - 1); }
            return Some(i - 1);
        }
        i -= 1;
    }
    proof { lemma_amap_none(s@, k@); }
    None
}

/// Binds `k` to `v` in `s`.
pub fn set_entry<V>(s: &mut Vec<(Vec<char>, V)>, k: Vec<char>, v: V)
    ensures
        amap(final(s)@) == amap(old(s)@).insert(k@, v),
{
    match find_last(s, &k) {
        Some(j) => {
            proof { lemma_amap_update(s@, j as int, (k, v)); }
            s.set(j, (k, v));
        },
        None => {
            let ghost k2 = k@;
            s.push((k, v));
            assert(s@.drop_last() == old(s)@);
        },
    }
}

} // verus!
