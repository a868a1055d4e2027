use vstd::prelude::*;
use crate::value::{Value, ValueView};

verus! {

/// The map a list of key–value entries denotes (later entries would win,
/// though the entity keeps its entries distinct).
pub open spec fn map_view(e: Seq<(String, Value)>) -> Map<Seq<char>, ValueView>
    decreases e.len(),
{
    if e.len() == 0 {
        Map::empty()
    } else {
        map_view(e.drop_last()).insert(e.last().0@, e.last().1@)
    }
}

/// No two entries share a key.
pub open spec fn distinct_entry_keys(e: Seq<(String, Value)>) -> bool {
    forall|i: int, j: int| 0 <= i < j < e.len() ==> e[i].0@ != e[j].0@
}

/// A key is in the denoted map exactly when some entry holds it.
pub proof fn lemma_map_view_contains(e: Seq<(String, Value)>, k: Seq<char>)
    ensures
        map_view(e).contains_key(k) <==> (exists|i: int|
            0 <= i < e.len() && e[i].0@ == k),
    decreases e.len(),
{
    if e.len() > 0 {
        lemma_map_view_contains(e.drop_last(), k);
        if e.last().0@ == k {
            assert(e[e.len() - 1].0@ == k);
        } else {
            if exists|i: int| 0 <= i < e.len() && e[i].0@ == k {
                let w = choose|i: int| 0 <= i < e.len() && e[i].0@ == k;
                assert(e.drop_last()[w] == e[w]);
            }
        }
    }
}

/// Under distinctness, the denoted map sends each entry's key to its value.
pub proof fn lemma_map_view_at(e: Seq<(String, Value)>, i: int)
    requires
        distinct_entry_keys(e),
        0 <= i < e.len(),
    ensures
        map_view(e).contains_key(e[i].0@),
        map_view(e)[e[i].0@] == e[i].1@,
    decreases e.len(),
{
    if i == e.len() - 1 {
    } else {
        assert(e.drop_last()[i] == e[i]);
        lemma_map_view_at(e.drop_last(), i);
        assert(e.last().0@ != e[i].0@);
    }
}

/// Removing the entry at a position removes exactly its key from the map.
pub proof fn lemma_map_view_remove_at(e: Seq<(String, Value)>, i: int)
    requires
        distinct_entry_keys(e),
        0 <= i < e.len(),
    ensures
        map_view(e.remove(i)) == map_view(e).remove(e[i].0@),
    decreases e.len(),
{
    let k = e[i].0@;
    if i == e.len() - 1 {
        assert(e.remove(i) =~= e.drop_last());
        assert forall|j: int| 0 <= j < e.len() - 1 implies e.drop_last()[j].0@ != k by {
            assert(e.drop_last()[j] == e[j]);
        }
        lemma_map_view_contains(e.drop_last(), k);
        assert(map_view(e.drop_last()) =~= map_view(e.drop_last()).insert(k, e[i].1@).remove(
            k,
        ));
    } else {
        let dl = e.drop_last();
        assert(e.remove(i).drop_last() =~= dl.remove(i));
        assert(e.remove(i).last() == e.last());
        assert(dl[i] == e[i]);
        assert forall|a: int, b: int| 0 <= a < b < dl.len() implies dl[a].0@ != dl[b].0@ by {
            assert(dl[a] == e[a] && dl[b] == e[b]);
        }
        lemma_map_view_remove_at(dl, i);
        assert(e.last().0@ != k);
        assert(map_view(dl).insert(e.last().0@, e.last().1@).remove(k) =~= map_view(
            dl,
        ).remove(k).insert(e.last().0@, e.last().1@));
        assert(map_view(e.remove(i)) == map_view(dl.remove(i)).insert(
            e.remove(i).last().0@,
            e.remove(i).last().1@,
        ));
    }
}

/// Looks a key up in the entry list.
pub fn map_get<'a>(e: &'a Vec<(String, Value)>, key: &String) -> (r: Option<&'a Value>)
    requires
        distinct_entry_keys(e@),
    ensures
        match r {
            Some(v) => map_view(e@).contains_key(key@) && v@ == map_view(e@)[key@],
            None => !map_view(e@).contains_key(key@),
        },
{
    let mut i: usize = 0;
    while i < e.len()
        invariant
            i <= e@.len(),
            distinct_entry_keys(e@),
            forall|j: int| 0 <= j < i ==> e@[j].0@ != key@,
        decreases e@.len() - i,
    {
        if e[i].0 == *key {
            proof {
                lemma_map_view_at(e@, i as int);
            }
            return Some(&e[i].1);
        }
        i = i + 1;
    }
    proof {
        lemma_map_view_contains(e@, key@);
    }
    None
}

/// Removes the entry holding `key`, if any.
pub fn remove_entry(e: &mut Vec<(String, Value)>, key: &String)
    requires
        distinct_entry_keys(old(e)@),
    ensures
        distinct_entry_keys(final(e)@),
        map_view(final(e)@) == map_view(old(e)@).remove(key@),
        forall|i: int| 0 <= i < final(e)@.len() ==> final(e)@[i].0@ != key@,
{
    let mut i: usize = 0;
    while i < e.len()
        invariant
            i <= e@.len(),
            e@ == old(e)@,
            distinct_entry_keys(e@),
            forall|j: int| 0 <= j < i ==> e@[j].0@ != key@,
        decreases e@.len() - i,
    {
        if e[i].0 == *key {
            let ghost prev = e@;
            e.remove(i);
            proof {
                lemma_map_view_remove_at(prev, i as int);
                assert(e@ == prev.remove(i as int));
                assert forall|a: int, b: int| 0 <= a < b < e@.len() implies e@[a].0@
                    != e@[b].0@ by {
                    let pa: int = if a < i { a } else { a + 1 };
                    let pb: int = if b < i { b } else { b + 1 };
                    assert(e@[a] == prev[pa] && e@[b] == prev[pb]);
                }
                assert forall|j: int| 0 <= j < e@.len() implies e@[j].0@ != key@ by {
                    let pj: int = if j < i { j } else { j + 1 };
                    assert(e@[j] == prev[pj]);
                    if j >= i {
                        assert(prev[i as int].0@ == key@);
                    }
                }
            }
            return ;
        }
        i = i + 1;
    }
    proof {
        lemma_map_view_contains(e@, key@);
        assert(map_view(e@) =~= map_view(e@).remove(key@));
    }
}

/// Inserts or replaces the value under `key`.
pub fn upsert(e: &mut Vec<(String, Value)>, key: &String, value: Value)
    requires
        distinct_entry_keys(old(e)@),
    ensures
        distinct_entry_keys(final(e)@),
        map_view(final(e)@) == map_view(old(e)@).insert(key@, value@),
{
    remove_entry(e, key);
    let ghost mid = e@;
    e.push((key.clone(), value));
    proof {
        assert(e@.drop_last() =~= mid);
        assert(e@.last().0@ == key@);
        assert(map_view(e@) == map_view(mid).insert(key@, e@.last().1@));
        assert(map_view(mid).insert(key@, value@) =~= map_view(old(e)@).insert(key@, value@));
        assert forall|a: int, b: int| 0 <= a < b < e@.len() implies e@[a].0@ != e@[b].0@ by {
            if b == e@.len() - 1 {
                assert(e@[a] == mid[a]);
            } else {
                assert(e@[a] == mid[a] && e@[b] == mid[b]);
            }
        }
    }
}

} // verus!
