use vstd::prelude::*;

verus! {

/// The character sequences of a list of string keys, in order.
pub open spec fn key_views(keys: Seq<String>) -> Seq<Seq<char>> {
    keys.map(|i: int, k: String| k@)
}

/// The set of key views a list holds.
pub open spec fn key_set(keys: Seq<String>) -> Set<Seq<char>> {
    Set::new(|x: Seq<char>| exists|i: int| 0 <= i < keys.len() && keys[i]@ == x)
}

/// No two entries of the list share a view.
pub open spec fn distinct_keys(keys: Seq<String>) -> bool {
    forall|i: int, j: int| 0 <= i < j < keys.len() ==> keys[i]@ != keys[j]@
}

/// Whether `key` occurs in the list.
pub fn contains_key(keys: &Vec<String>, key: &String) -> (r: bool)
    ensures
        r == key_set(keys@).contains(key@),
{
    let mut i: usize = 0;
    while i < keys.len()
        invariant
            i <= keys@.len(),
            forall|j: int| 0 <= j < i ==> keys@[j]@ != key@,
        decreases keys@.len() - i,
    {
        if keys[i] == *key {
            assert(keys@[i as int]@ == key@);
            return true;
        }
        i = i + 1;
    }
    false
}

/// Adds `key` unless an entry with the same view is already there.
pub fn insert_key(keys: &mut Vec<String>, key: &String)
    requires
        distinct_keys(old(keys)@),
    ensures
        distinct_keys(final(keys)@),
        key_set(final(keys)@) == key_set(old(keys)@).insert(key@),
{
    let present = contains_key(keys, key);
    if !present {
        keys.push(key.clone());
        proof {
            assert forall|j: int| 0 <= j < old(keys)@.len() implies final(keys)@[j]@
                == old(keys)@[j]@ by {}
            assert(key_set(keys@) =~= key_set(old(keys)@).insert(key@)) by {
                assert(keys@[keys@.len() - 1]@ == key@);
            }
        }
    } else {
        proof {
            assert(key_set(keys@) =~= key_set(old(keys)@).insert(key@));
        }
    }
}

/// Removes every entry whose view equals `key` (at most one, by
/// distinctness).
pub fn remove_key(keys: &mut Vec<String>, key: &String)
    requires
        distinct_keys(old(keys)@),
    ensures
        distinct_keys(final(keys)@),
        key_set(final(keys)@) == key_set(old(keys)@).remove(key@),
{
    let mut i: usize = 0;
    while i < keys.len()
        invariant
            i <= keys@.len(),
            distinct_keys(keys@),
            keys@ == old(keys)@,
            forall|j: int| 0 <= j < i ==> keys@[j]@ != key@,
        decreases keys@.len() - i,
    {
        if keys[i] == *key {
            let ghost prev = keys@;
            keys.remove(i);
            proof {
                assert forall|a: int, b: int| 0 <= a < b < keys@.len() implies keys@[a]@
                    != keys@[b]@ by {
                    let pa: int = if a < i { a } else { a + 1 };
                    let pb: int = if b < i { b } else { b + 1 };
                    assert(keys@[a] == prev[pa]);
                    assert(keys@[b] == prev[pb]);
                }
                assert(key_set(keys@) =~= key_set(prev).remove(key@)) by {
                    assert forall|x: Seq<char>| key_set(prev).remove(key@).contains(x)
                        implies key_set(keys@).contains(x) by {
                        let w = choose|w: int| 0 <= w < prev.len() && prev[w]@ == x;
                        if w < i {
                            assert(keys@[w]@ == x);
                        } else {
                            assert(prev[i as int]@ == key@ && x != key@);
                            assert(keys@[w - 1]@ == x);
                        }
                    }
                    assert forall|x: Seq<char>| key_set(keys@).contains(x) implies key_set(
                        prev,
                    ).remove(key@).contains(x) by {
                        let w = choose|w: int| 0 <= w < keys@.len() && keys@[w]@ == x;
                        let pw: int = if w < i { w } else { w + 1 };
                        assert(prev[pw]@ == x);
                        assert(x != key@) by {
                            if w < i {
                            } else {
                                assert(prev[i as int]@ == key@);
                            }
                        }
                    }
                }
            }
            return ;
        }
        i = i + 1;
    }
    proof {
        assert(key_set(keys@) =~= key_set(keys@).remove(key@));
    }
}

/// A fresh list holding the same keys.
pub fn clone_keys(keys: &Vec<String>) -> (r: Vec<String>)
    ensures
        r@.len() == keys@.len(),
        forall|i: int| 0 <= i < keys@.len() ==> r@[i]@ == keys@[i]@,
        key_set(r@) == key_set(keys@),
        distinct_keys(keys@) ==> distinct_keys(r@),
{
    let mut r: Vec<String> = Vec::new();
    let mut i: usize = 0;
    while i < keys.len()
        invariant
            i <= keys@.len(),
            r@.len() == i,
            forall|j: int| 0 <= j < i ==> r@[j]@ == keys@[j]@,
        decreases keys@.len() - i,
    {
        r.push(keys[i].clone());
        i = i + 1;
    }
    proof {
        assert(key_set(r@) =~= key_set(keys@));
    }
    r
}

} // verus!
