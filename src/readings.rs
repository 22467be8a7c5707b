//! Sensor readings by name, held as a list of pairs with distinct names and
//! viewed as a map.
use vstd::prelude::*;
use crate::text::str_eq;

verus! {

/// Whether no two pairs share a name.
pub open spec fn keys_unique(v: Seq<(String, i32)>) -> bool {
    forall|i: int, j: int| 0 <= i < j < v.len() ==> (#[trigger] v[i]).0@ != (#[trigger] v[j]).0@
}

/// The map from name to value that the pairs hold.
pub open spec fn pairs_map(v: Seq<(String, i32)>) -> Map<Seq<char>, i32>
    decreases v.len(),
{
    if v.len() == 0 {
        Map::empty()
    } else {
        pairs_map(v.drop_last()).insert(v.last().0@, v.last().1)
    }
}

proof fn lemma_pairs_map_absent(v: Seq<(String, i32)>, k: Seq<char>)
    requires
        forall|j: int| 0 <= j < v.len() ==> (#[trigger] v[j]).0@ != k,
    ensures
        !pairs_map(v).dom().contains(k),
    decreases v.len(),
{
    if v.len() > 0 {
        assert(v.last() == v[v.len() - 1]);
        lemma_pairs_map_absent(v.drop_last(), k);
    }
}

proof fn lemma_pairs_map_get(v: Seq<(String, i32)>, i: int)
    requires
        keys_unique(v),
        0 <= i < v.len(),
    ensures
        pairs_map(v).dom().contains(v[i].0@),
        pairs_map(v)[v[i].0@] == v[i].1,
    decreases v.len(),
{
    if i < v.len() - 1 {
        assert(v[i] == v.drop_last()[i]);
        assert(v.last() == v[v.len() - 1]);
        lemma_pairs_map_get(v.drop_last(), i);
    }
}

proof fn lemma_pairs_map_update(v: Seq<(String, i32)>, i: int, p: (String, i32))
    requires
        keys_unique(v),
        0 <= i < v.len(),
        p.0@ == v[i].0@,
    ensures
        pairs_map(v.update(i, p)) == pairs_map(v).insert(p.0@, p.1),
        keys_unique(v.update(i, p)),
    decreases v.len(),
{
    let w = v.update(i, p);
    assert(w.drop_last() =~= if i == v.len() - 1 { v.drop_last() } else { v.drop_last().update(i, p) });
    if i == v.len() - 1 {
        assert(pairs_map(w) =~= pairs_map(v).insert(p.0@, p.1));
    } else {
        assert(v.last() == v[v.len() - 1]);
        lemma_pairs_map_update(v.drop_last(), i, p);
        assert(v.last().0@ != p.0@);
        assert(pairs_map(w) =~= pairs_map(v).insert(p.0@, p.1));
    }
}

/// Set the value for `name`, replacing an earlier one.
pub fn set_reading(v: &mut Vec<(String, i32)>, name: String, value: i32)
    requires
        keys_unique(old(v)@),
    ensures
        keys_unique(final(v)@),
        pairs_map(final(v)@) == pairs_map(old(v)@).insert(name@, value),
{
    let mut i: usize = 0;
    while i < v.len()
        invariant
            0 <= i <= v@.len(),
            v@ == old(v)@,
            keys_unique(v@),
            forall|j: int| 0 <= j < i ==> (#[trigger] v@[j]).0@ != name@,
        decreases v@.len() - i,
    {
        if str_eq(v[i].0.as_str(), name.as_str()) {
            proof {
                lemma_pairs_map_update(v@, i as int, (name, value));
            }
            v.set(i, (name, value));
            return;
        }
        i = i + 1;
    }
    let ghost before = v@;
    v.push((name, value));
    assert(v@.drop_last() == before);
    assert(v@.last() == (name, value));
    assert forall|a: int, b: int| 0 <= a < b < v@.len() implies (#[trigger] v@[a]).0@ != (#[trigger] v@[b]).0@ by {
        if b == v@.len() - 1 {
            assert(v@[a] == before[a]);
        } else {
            assert(v@[a] == before[a] && v@[b] == before[b]);
        }
    }
}

/// The value for `name`, if any.
pub fn get_reading(v: &Vec<(String, i32)>, name: &str) -> (r: Option<i32>)
    requires
        keys_unique(v@),
    ensures
        r == (if pairs_map(v@).dom().contains(name@) { Some(pairs_map(v@)[name@]) } else { None }),
{
    let mut i: usize = 0;
    while i < v.len()
        invariant
            0 <= i <= v@.len(),
            keys_unique(v@),
            forall|j: int| 0 <= j < i ==> (#[trigger] v@[j]).0@ != name@,
        decreases v@.len() - i,
    {
        if str_eq(v[i].0.as_str(), name) {
            proof {
                lemma_pairs_map_get(v@, i as int);
            }
            return Some(v[i].1);
        }
        i = i + 1;
    }
    proof {
        lemma_pairs_map_absent(v@, name@);
    }
    None
}

} // verus!
