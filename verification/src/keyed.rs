//! Records that are listed under identifiers: the map that such a list stands
//! for, and what the changes of the list do to the map.

use vstd::prelude::*;

verus! {

/// The map that takes each of `keys` to the value in its place.
pub open spec fn to_map<V>(keys: Seq<Seq<char>>, values: Seq<V>) -> Map<Seq<char>, V> {
    Map::new(|k: Seq<char>| keys.contains(k), |k: Seq<char>| values[keys.index_of(k)])
}

/// The sequence without its entry at `i`, whose place the last entry takes.
pub open spec fn swap_removed<T>(s: Seq<T>, i: int) -> Seq<T> {
    s.update(i, s.last()).drop_last()
}

/// The key at `i` is taken to the value at `i`.
pub proof fn lemma_to_map_at<V>(keys: Seq<Seq<char>>, values: Seq<V>, i: int)
    requires
        keys.no_duplicates(),
        0 <= i < keys.len(),
    ensures
        keys.contains(keys[i]),
        keys.index_of(keys[i]) == i,
        to_map(keys, values).contains_key(keys[i]),
        to_map(keys, values)[keys[i]] == values[i],
{
    let k = keys[i];
    assert(keys[i] == k);
}

/// Adding a value under a new key adds it to the map.
pub proof fn lemma_to_map_push<V>(keys: Seq<Seq<char>>, values: Seq<V>, k: Seq<char>, v: V)
    requires
        keys.no_duplicates(),
        keys.len() == values.len(),
        !keys.contains(k),
    ensures
        keys.push(k).no_duplicates(),
        to_map(keys.push(k), values.push(v)) == to_map(keys, values).insert(k, v),
{
    let keys2 = keys.push(k);
    let values2 = values.push(v);
    assert forall|i: int, j: int|
        0 <= i < keys2.len() && 0 <= j < keys2.len() && i != j implies keys2[i] != keys2[j] by {
        if i < keys.len() && j < keys.len() {
        } else if i < keys.len() {
            assert(keys[i] != k);
        } else {
            assert(keys[j] != k);
        }
    }
    let added = to_map(keys2, values2);
    let put = to_map(keys, values).insert(k, v);
    assert forall|x: Seq<char>| added.contains_key(x) == put.contains_key(x) by {
        if keys2.contains(x) {
            let i = keys2.index_of(x);
            if i < keys.len() {
                assert(keys[i] == x);
            }
        }
        if keys.contains(x) {
            let i = keys.index_of(x);
            assert(keys2[i] == x);
        }
        if x == k {
            assert(keys2[keys.len() as int] == k);
        }
    }
    assert forall|x: Seq<char>| added.contains_key(x) implies added[x] == put[x] by {
        let i = keys2.index_of(x);
        if x == k {
            lemma_to_map_at(keys2, values2, keys.len() as int);
        } else {
            assert(keys[i] == x);
            lemma_to_map_at(keys, values, i);
        }
    }
    assert(added =~= put);
}

/// Replacing the value at `i` replaces what its key is taken to.
pub proof fn lemma_to_map_update<V>(keys: Seq<Seq<char>>, values: Seq<V>, i: int, v: V)
    requires
        keys.no_duplicates(),
        keys.len() == values.len(),
        0 <= i < keys.len(),
    ensures
        to_map(keys, values.update(i, v)) == to_map(keys, values).insert(keys[i], v),
{
    lemma_to_map_at(keys, values, i);
    let replaced = to_map(keys, values.update(i, v));
    let put = to_map(keys, values).insert(keys[i], v);
    assert forall|x: Seq<char>| replaced.contains_key(x) implies replaced[x] == put[x] by {
        let j = keys.index_of(x);
        lemma_to_map_at(keys, values, j);
    }
    assert(replaced =~= put);
}

/// Removing the entry at `i` removes its key from the map.
pub proof fn lemma_to_map_swap_remove<V>(keys: Seq<Seq<char>>, values: Seq<V>, i: int)
    requires
        keys.no_duplicates(),
        keys.len() == values.len(),
        0 <= i < keys.len(),
    ensures
        swap_removed(keys, i).no_duplicates(),
        to_map(swap_removed(keys, i), swap_removed(values, i)) == to_map(keys, values).remove(keys[i]),
{
    let keys2 = swap_removed(keys, i);
    let values2 = swap_removed(values, i);
    let last = keys.len() - 1;
    assert forall|a: int, b: int|
        0 <= a < keys2.len() && 0 <= b < keys2.len() && a != b implies keys2[a] != keys2[b] by {
        let a0 = if a == i { last } else { a };
        let b0 = if b == i { last } else { b };
        assert(keys2[a] == keys[a0]);
        assert(keys2[b] == keys[b0]);
    }
    let m2 = to_map(keys2, values2);
    let m = to_map(keys, values).remove(keys[i]);
    assert forall|x: Seq<char>| m2.contains_key(x) == m.contains_key(x) by {
        if keys2.contains(x) {
            let a = keys2.index_of(x);
            let a0 = if a == i { last } else { a };
            assert(keys2[a] == keys[a0]);
            assert(keys[a0] == x);
            assert(a0 != i);
        }
        if keys.contains(x) && x != keys[i] {
            let a0 = keys.index_of(x);
            let a = if a0 == last { i } else { a0 };
            assert(keys2[a] == keys[a0]);
            assert(keys2[a] == x);
        }
    }
    assert forall|x: Seq<char>| m2.contains_key(x) implies m2[x] == m[x] by {
        let a = keys2.index_of(x);
        let a0 = if a == i { last } else { a };
        assert(keys2[a] == keys[a0]);
        lemma_to_map_at(keys2, values2, a);
        lemma_to_map_at(keys, values, a0);
    }
    assert(m2 =~= m);
}

} // verus!
