//! Lists of pairs read as maps.
//!
//! The registry keeps its tables as vectors of pairs in which no key stands
//! twice. These are the facts that let such a list stand for a map.

use vstd::prelude::*;

verus! {

/// No key stands twice in `pairs`.
pub open spec fn distinct_keys<K, V>(pairs: Seq<(K, V)>) -> bool {
    forall|i: int, j: int|
        0 <= i < j < pairs.len() ==> (#[trigger] pairs[i]).0 != (#[trigger] pairs[j]).0
}

/// Some pair of `pairs` has the key `key`.
pub open spec fn has_key<K, V>(pairs: Seq<(K, V)>, key: K) -> bool {
    exists|i: int| 0 <= i < pairs.len() && (#[trigger] pairs[i]).0 == key
}

/// A place in `pairs` at which `key` stands, if it stands anywhere.
pub open spec fn place_of<K, V>(pairs: Seq<(K, V)>, key: K) -> int {
    choose|i: int| 0 <= i < pairs.len() && (#[trigger] pairs[i]).0 == key
}

/// The map that takes each key of `pairs` to the value beside it.
pub open spec fn as_map<K, V>(pairs: Seq<(K, V)>) -> Map<K, V> {
    Map::new(|key: K| has_key(pairs, key), |key: K| pairs[place_of(pairs, key)].1)
}

/// Each pair of a list without repeated keys is found in its map.
pub proof fn lemma_pair_in_map<K, V>(pairs: Seq<(K, V)>, at: int)
    requires
        distinct_keys(pairs),
        0 <= at < pairs.len(),
    ensures
        has_key(pairs, pairs[at].0),
        place_of(pairs, pairs[at].0) == at,
        as_map(pairs).contains_key(pairs[at].0),
        as_map(pairs)[pairs[at].0] == pairs[at].1,
{
}

/// Each key of the map stands somewhere in the list, beside its value.
pub proof fn lemma_key_in_list<K, V>(pairs: Seq<(K, V)>, key: K)
    requires
        as_map(pairs).contains_key(key),
    ensures
        0 <= place_of(pairs, key) < pairs.len(),
        pairs[place_of(pairs, key)].0 == key,
        pairs[place_of(pairs, key)].1 == as_map(pairs)[key],
{
}

/// A pair with a new key, put at the end, is one more entry of the map.
pub proof fn lemma_push_pair<K, V>(pairs: Seq<(K, V)>, key: K, value: V)
    requires
        distinct_keys(pairs),
        !has_key(pairs, key),
    ensures
        distinct_keys(pairs.push((key, value))),
        as_map(pairs.push((key, value))) =~= as_map(pairs).insert(key, value),
{
    let longer = pairs.push((key, value));
    assert forall|k: K| #[trigger]
        as_map(longer).contains_key(k) <==> as_map(pairs).insert(key, value).contains_key(k) by {
        if has_key(pairs, k) {
            assert(longer[place_of(pairs, k)].0 == k);
        }
        if k == key {
            assert(longer[pairs.len() as int].0 == k);
        }
    }
    assert forall|k: K| #[trigger] as_map(longer).contains_key(k) implies as_map(longer)[k]
        == as_map(pairs).insert(key, value)[k] by {
        let i = place_of(longer, k);
        lemma_pair_in_map(longer, i);
        if i < pairs.len() {
            lemma_pair_in_map(pairs, i);
        }
    }
}

/// A new value at the place of a key is a new value for that key in the map.
pub proof fn lemma_update_pair<K, V>(pairs: Seq<(K, V)>, at: int, value: V)
    requires
        distinct_keys(pairs),
        0 <= at < pairs.len(),
    ensures
        distinct_keys(pairs.update(at, (pairs[at].0, value))),
        as_map(pairs.update(at, (pairs[at].0, value))) =~= as_map(pairs).insert(
            pairs[at].0,
            value,
        ),
{
    let key = pairs[at].0;
    let changed = pairs.update(at, (key, value));
    assert forall|k: K| #[trigger]
        as_map(changed).contains_key(k) <==> as_map(pairs).insert(key, value).contains_key(k) by {
        if has_key(pairs, k) {
            assert(changed[place_of(pairs, k)].0 == k);
        }
    }
    assert forall|k: K| #[trigger] as_map(changed).contains_key(k) implies as_map(changed)[k]
        == as_map(pairs).insert(key, value)[k] by {
        let i = place_of(changed, k);
        lemma_pair_in_map(changed, i);
        if i != at {
            lemma_pair_in_map(pairs, i);
        }
    }
}

/// A pair taken out of the list is a key taken out of the map.
pub proof fn lemma_remove_pair<K, V>(pairs: Seq<(K, V)>, at: int)
    requires
        distinct_keys(pairs),
        0 <= at < pairs.len(),
    ensures
        distinct_keys(pairs.remove(at)),
        !has_key(pairs.remove(at), pairs[at].0),
        as_map(pairs.remove(at)) =~= as_map(pairs).remove(pairs[at].0),
{
    let key = pairs[at].0;
    let shorter = pairs.remove(at);
    assert forall|i: int| 0 <= i < shorter.len() implies #[trigger] shorter[i] == pairs[if i < at {
        i
    } else {
        i + 1
    }] by {}
    assert forall|k: K| #[trigger]
        as_map(shorter).contains_key(k) <==> as_map(pairs).remove(key).contains_key(k) by {
        if has_key(pairs, k) && k != key {
            let i = place_of(pairs, k);
            let to_i = if i < at {
                i
            } else {
                i - 1
            };
            assert(shorter[to_i].0 == k);
        }
    }
    assert forall|k: K| #[trigger] as_map(shorter).contains_key(k) implies as_map(shorter)[k]
        == as_map(pairs).remove(key)[k] by {
        let i = place_of(shorter, k);
        lemma_pair_in_map(shorter, i);
        lemma_pair_in_map(
            pairs,
            if i < at {
                i
            } else {
                i + 1
            },
        );
    }
}

/// A list without repeated keys has as many pairs as its map has keys.
pub proof fn lemma_map_size<K, V>(pairs: Seq<(K, V)>)
    requires
        distinct_keys(pairs),
    ensures
        as_map(pairs).dom().finite(),
        as_map(pairs).dom().len() == pairs.len(),
    decreases pairs.len(),
{
    if pairs.len() == 0 {
        assert(as_map(pairs).dom() =~= Set::<K>::empty());
    } else {
        let last = (pairs.len() - 1) as int;
        lemma_remove_pair(pairs, last);
        lemma_map_size(pairs.remove(last));
        lemma_pair_in_map(pairs, last);
    }
}

} // verus!
