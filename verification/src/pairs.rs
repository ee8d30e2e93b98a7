//! Lists of keys and values that stand for a map.
use vstd::prelude::*;

verus! {

/// No key occurs twice.
pub open spec fn keys_differ<K, V>(pairs: Seq<(K, V)>) -> bool {
    forall|i: int, j: int|
        0 <= i < pairs.len() && 0 <= j < pairs.len() && i != j ==> (#[trigger] pairs[i]).0 != (
        #[trigger] pairs[j]).0
}

/// Whether the pair at `i` has the key `key`.
pub open spec fn has_key_at<K, V>(pairs: Seq<(K, V)>, key: K, i: int) -> bool {
    0 <= i < pairs.len() && pairs[i].0 == key
}

/// The values of a list by their keys.
pub open spec fn as_map<K, V>(pairs: Seq<(K, V)>) -> Map<K, V> {
    Map::new(
        |key: K| exists|i: int| has_key_at(pairs, key, i),
        |key: K| pairs[choose|i: int| has_key_at(pairs, key, i)].1,
    )
}

pub proof fn lemma_at<K, V>(pairs: Seq<(K, V)>, i: int)
    requires
        keys_differ(pairs),
        0 <= i < pairs.len(),
    ensures
        as_map(pairs).contains_key(pairs[i].0),
        as_map(pairs)[pairs[i].0] == pairs[i].1,
{
    let key = pairs[i].0;
    assert(has_key_at(pairs, key, i));
    let found = choose|i: int| has_key_at(pairs, key, i);
    assert(found == i);
}

pub proof fn lemma_empty<K, V>(pairs: Seq<(K, V)>)
    requires
        pairs.len() == 0,
    ensures
        as_map(pairs) == Map::<K, V>::empty(),
{
    assert(as_map(pairs) =~= Map::<K, V>::empty());
}

pub proof fn lemma_push<K, V>(pairs: Seq<(K, V)>, key: K, value: V)
    requires
        keys_differ(pairs),
        !as_map(pairs).contains_key(key),
    ensures
        keys_differ(pairs.push((key, value))),
        as_map(pairs.push((key, value))) == as_map(pairs).insert(key, value),
{
    let more = pairs.push((key, value));
    assert forall|i: int| 0 <= i < pairs.len() implies (#[trigger] pairs[i]).0 != key by {
        lemma_at(pairs, i);
    }
    assert(keys_differ(more)) by {
        assert forall|i: int, j: int|
            0 <= i < more.len() && 0 <= j < more.len() && i != j implies (#[trigger] more[i]).0
            != (#[trigger] more[j]).0 by {
            if i < pairs.len() && j < pairs.len() {
                assert(pairs[i].0 != pairs[j].0);
            } else if i < pairs.len() {
                assert(pairs[i].0 != key);
            } else {
                assert(pairs[j].0 != key);
            }
        }
    }
    let expected = as_map(pairs).insert(key, value);
    assert forall|other: K| as_map(more).contains_key(other) <==> expected.contains_key(other) by {
        if as_map(more).contains_key(other) {
            let i = choose|i: int| has_key_at(more, other, i);
            if i < pairs.len() {
                assert(has_key_at(pairs, other, i));
            }
        }
        if expected.contains_key(other) {
            if other == key {
                assert(has_key_at(more, other, pairs.len() as int));
            } else {
                let i = choose|i: int| has_key_at(pairs, other, i);
                assert(has_key_at(more, other, i));
            }
        }
    }
    assert forall|other: K| as_map(more).contains_key(other) implies as_map(more)[other]
        == expected[other] by {
        let i = choose|i: int| has_key_at(more, other, i);
        lemma_at(more, i);
        if i < pairs.len() {
            lemma_at(pairs, i);
        }
    }
    assert(as_map(more) =~= expected);
}

pub proof fn lemma_remove<K, V>(pairs: Seq<(K, V)>, at: int)
    requires
        keys_differ(pairs),
        0 <= at < pairs.len(),
    ensures
        keys_differ(pairs.remove(at)),
        as_map(pairs.remove(at)) == as_map(pairs).remove(pairs[at].0),
{
    let fewer = pairs.remove(at);
    let expected = as_map(pairs).remove(pairs[at].0);
    assert forall|i: int| 0 <= i < fewer.len() implies (#[trigger] fewer[i]) == pairs[if i < at {
        i
    } else {
        i + 1
    }] by {}
    assert(keys_differ(fewer)) by {
        assert forall|i: int, j: int|
            0 <= i < fewer.len() && 0 <= j < fewer.len() && i != j implies (#[trigger] fewer[i]).0
            != (#[trigger] fewer[j]).0 by {
            let left = if i < at {
                i
            } else {
                i + 1
            };
            let right = if j < at {
                j
            } else {
                j + 1
            };
            assert(pairs[left].0 != pairs[right].0);
        }
    }
    assert forall|key: K| as_map(fewer).contains_key(key) <==> expected.contains_key(key) by {
        if as_map(fewer).contains_key(key) {
            let i = choose|i: int| has_key_at(fewer, key, i);
            let j = if i < at {
                i
            } else {
                i + 1
            };
            assert(has_key_at(pairs, key, j));
            assert(pairs[j].0 != pairs[at].0);
        }
        if expected.contains_key(key) {
            let i = choose|i: int| has_key_at(pairs, key, i);
            assert(has_key_at(fewer, key, if i < at {
                i
            } else {
                i - 1
            }));
        }
    }
    assert forall|key: K| as_map(fewer).contains_key(key) implies as_map(fewer)[key]
        == expected[key] by {
        let i = choose|i: int| has_key_at(fewer, key, i);
        lemma_at(fewer, i);
        lemma_at(pairs, if i < at {
            i
        } else {
            i + 1
        });
    }
    assert(as_map(fewer) =~= expected);
}

/// The keys of a list, in its order.
pub open spec fn keys_of<K, V>(pairs: Seq<(K, V)>) -> Seq<K> {
    pairs.map_values(|pair: (K, V)| pair.0)
}

/// A list stands for `map` when each of its keys occurs once.
pub open spec fn lists<K, V>(pairs: Seq<(K, V)>, map: Map<K, V>) -> bool {
    &&& keys_of(pairs).no_duplicates()
    &&& keys_of(pairs).to_set() == map.dom()
    &&& forall|i: int| 0 <= i < pairs.len() ==> (#[trigger] pairs[i]).1 == map[pairs[i].0]
}

pub proof fn lemma_lists<K, V>(pairs: Seq<(K, V)>)
    requires
        keys_differ(pairs),
    ensures
        lists(pairs, as_map(pairs)),
        as_map(pairs).dom().finite(),
        as_map(pairs).len() == pairs.len(),
{
    let keys = keys_of(pairs);
    assert(keys.no_duplicates());
    assert forall|key: K| keys.to_set().contains(key) <==> as_map(pairs).dom().contains(key) by {
        if keys.contains(key) {
            let i = choose|i: int| 0 <= i < keys.len() && keys[i] == key;
            assert(has_key_at(pairs, key, i));
        }
        if as_map(pairs).contains_key(key) {
            let i = choose|i: int| has_key_at(pairs, key, i);
            assert(keys[i] == key);
        }
    }
    assert(keys.to_set() =~= as_map(pairs).dom());
    keys.unique_seq_to_set();
    vstd::seq_lib::seq_to_set_is_finite(keys);
    assert forall|i: int| 0 <= i < pairs.len() implies (#[trigger] pairs[i]).1 == as_map(
        pairs,
    )[pairs[i].0] by {
        lemma_at(pairs, i);
    }
}

} // verus!
