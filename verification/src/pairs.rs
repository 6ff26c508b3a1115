//! Sequences of keys with values that stand for a map: what they hold, and
//! what holds of them where the keys rise.

use crate::order::{Ordered, Place};
use vstd::prelude::*;

verus! {

/// The map that `pairs` stands for: each key with its value, a later pair for
/// a key replacing an earlier one.
pub open spec fn pairs_map<A, B>(pairs: Seq<(A, B)>) -> Map<A, B>
    decreases pairs.len(),
{
    if pairs.len() == 0 {
        Map::empty()
    } else {
        pairs_map(pairs.drop_last()).insert(pairs.last().0, pairs.last().1)
    }
}

/// Whether `key` is the key of none of `pairs`.
pub open spec fn absent<A, B>(pairs: Seq<(A, B)>, key: A) -> bool {
    forall|i: int| 0 <= i < pairs.len() ==> (#[trigger] pairs[i]).0 != key
}

/// Whether the values of `values` rise from each to the next, so that none
/// occurs twice.
pub open spec fn rising<O: Ordered>(values: Seq<O::V>) -> bool {
    forall|i: int, j: int|
        0 <= i < j < values.len() ==> O::place(#[trigger] values[i], #[trigger] values[j])
            == Place::Before
}

/// The keys of `pairs`, in order.
pub open spec fn keys<A, B>(pairs: Seq<(A, B)>) -> Seq<A> {
    Seq::new(pairs.len(), |i: int| pairs[i].0)
}

/// The keys of `pairs` are exactly the keys of their map.
pub proof fn lemma_pairs_dom<A, B>(pairs: Seq<(A, B)>, key: A)
    ensures
        pairs_map(pairs).dom().contains(key) <==> !absent(pairs, key),
    decreases pairs.len(),
{
    if pairs.len() > 0 {
        let front = pairs.drop_last();
        lemma_pairs_dom(front, key);
        if pairs_map(pairs).dom().contains(key) {
            if pairs.last().0 == key {
                assert(pairs[pairs.len() - 1].0 == key);
            } else {
                let i = choose|i: int| 0 <= i < front.len() && (#[trigger] front[i]).0 == key;
                assert(pairs[i].0 == key);
            }
        }
        if !absent(pairs, key) {
            let i = choose|i: int| 0 <= i < pairs.len() && (#[trigger] pairs[i]).0 == key;
            if i < front.len() {
                assert(front[i].0 == key);
            }
        }
    }
}

/// Where the keys of pairs rise, the keys of all but the last rise, and the
/// key of the last is not among them.
pub proof fn lemma_rising_front<O: Ordered, B>(pairs: Seq<(O::V, B)>)
    requires
        rising::<O>(keys(pairs)),
        pairs.len() > 0,
    ensures
        rising::<O>(keys(pairs.drop_last())),
        absent(pairs.drop_last(), pairs.last().0),
{
    let front = pairs.drop_last();
    assert forall|i: int, j: int| 0 <= i < j < front.len() implies O::place(
        #[trigger] keys(front)[i],
        #[trigger] keys(front)[j],
    ) == Place::Before by {
        assert(O::place(keys(pairs)[i], keys(pairs)[j]) == Place::Before);
    }
    assert forall|i: int| 0 <= i < front.len() implies (#[trigger] front[i]).0
        != pairs.last().0 by {
        assert(O::place(keys(pairs)[i], keys(pairs)[pairs.len() - 1]) == Place::Before);
        O::lemma_same(front[i].0, pairs.last().0);
    }
}

/// Among pairs whose keys rise, every pair stands in the map under its key.
pub proof fn lemma_pairs_index<O: Ordered, B>(pairs: Seq<(O::V, B)>, at: int)
    requires
        rising::<O>(keys(pairs)),
        0 <= at < pairs.len(),
    ensures
        pairs_map(pairs).dom().contains(pairs[at].0),
        pairs_map(pairs)[pairs[at].0] == pairs[at].1,
    decreases pairs.len(),
{
    if at < pairs.len() - 1 {
        lemma_rising_front::<O, B>(pairs);
        lemma_pairs_index::<O, B>(pairs.drop_last(), at);
        assert(pairs.drop_last()[at].0 != pairs.last().0);
    }
}

/// Among pairs whose keys rise, replacing the value of one pair is inserting
/// the new value under that pair's key, and leaves the keys as they are.
pub proof fn lemma_pairs_update<O: Ordered, B>(pairs: Seq<(O::V, B)>, at: int, value: B)
    requires
        rising::<O>(keys(pairs)),
        0 <= at < pairs.len(),
    ensures
        keys(pairs.update(at, (pairs[at].0, value))) == keys(pairs),
        pairs_map(pairs.update(at, (pairs[at].0, value))) == pairs_map(pairs).insert(
            pairs[at].0,
            value,
        ),
    decreases pairs.len(),
{
    let key = pairs[at].0;
    let changed = pairs.update(at, (key, value));
    let front = pairs.drop_last();
    assert(keys(changed) == keys(pairs));
    if at == pairs.len() - 1 {
        assert(changed.drop_last() == front);
        assert(pairs_map(changed) == pairs_map(pairs).insert(key, value));
    } else {
        assert(changed.drop_last() == front.update(at, (front[at].0, value)));
        lemma_rising_front::<O, B>(pairs);
        lemma_pairs_update::<O, B>(front, at, value);
        assert(front[at].0 != pairs.last().0);
        assert(pairs_map(changed) == pairs_map(pairs).insert(key, value));
    }
}

/// Putting a pair with a new key at any place among pairs is inserting its
/// value under its key.
pub proof fn lemma_pairs_insert<A, B>(pairs: Seq<(A, B)>, at: int, pair: (A, B))
    requires
        0 <= at <= pairs.len(),
        absent(pairs, pair.0),
    ensures
        pairs_map(pairs.insert(at, pair)) == pairs_map(pairs).insert(pair.0, pair.1),
    decreases pairs.len(),
{
    let longer = pairs.insert(at, pair);
    if at == pairs.len() {
        assert(longer.drop_last() == pairs);
    } else {
        let front = pairs.drop_last();
        assert(longer.drop_last() == front.insert(at, pair));
        assert(longer.last() == pairs.last());
        assert(absent(front, pair.0)) by {
            assert forall|i: int| 0 <= i < front.len() implies (#[trigger] front[i]).0
                != pair.0 by {
                assert(pairs[i].0 != pair.0);
            }
        }
        lemma_pairs_insert(front, at, pair);
        assert(pairs[pairs.len() - 1].0 != pair.0);
        assert(pairs_map(longer) == pairs_map(pairs).insert(pair.0, pair.1));
    }
}

/// Pairs whose keys rise stand for a map with as many keys.
pub proof fn lemma_rising_len<O: Ordered, B>(pairs: Seq<(O::V, B)>)
    requires
        rising::<O>(keys(pairs)),
    ensures
        pairs_map(pairs).dom().finite(),
        pairs_map(pairs).dom().len() == pairs.len(),
    decreases pairs.len(),
{
    if pairs.len() > 0 {
        lemma_rising_front::<O, B>(pairs);
        lemma_rising_len::<O, B>(pairs.drop_last());
        lemma_pairs_dom(pairs.drop_last(), pairs.last().0);
    }
}

/// The order of pairs is no choice: pairs whose keys rise are fixed by the
/// map that they stand for.
pub proof fn lemma_rising_unique<O: Ordered, B>(a: Seq<(O::V, B)>, b: Seq<(O::V, B)>)
    requires
        rising::<O>(keys(a)),
        rising::<O>(keys(b)),
        pairs_map(a) == pairs_map(b),
    ensures
        a == b,
    decreases a.len(),
{
    lemma_rising_len::<O, B>(a);
    lemma_rising_len::<O, B>(b);
    if a.len() > 0 {
        let last_a = a.last();
        let last_b = b.last();
        lemma_rising_front::<O, B>(a);
        lemma_rising_front::<O, B>(b);
        lemma_pairs_index::<O, B>(a, a.len() - 1);
        lemma_pairs_index::<O, B>(b, b.len() - 1);
        lemma_pairs_dom(b, last_a.0);
        lemma_pairs_dom(a, last_b.0);
        let in_b = choose|i: int| 0 <= i < b.len() && (#[trigger] b[i]).0 == last_a.0;
        let in_a = choose|i: int| 0 <= i < a.len() && (#[trigger] a[i]).0 == last_b.0;
        if last_a.0 != last_b.0 {
            assert(O::place(keys(b)[in_b], keys(b)[b.len() - 1]) == Place::Before);
            assert(O::place(keys(a)[in_a], keys(a)[a.len() - 1]) == Place::Before);
            O::lemma_flip(last_a.0, last_b.0);
        }
        assert(last_a == last_b);
        lemma_pairs_dom(a.drop_last(), last_a.0);
        lemma_pairs_dom(b.drop_last(), last_b.0);
        assert(pairs_map(a.drop_last()) == pairs_map(a).remove(last_a.0));
        assert(pairs_map(b.drop_last()) == pairs_map(b).remove(last_b.0));
        lemma_rising_unique::<O, B>(a.drop_last(), b.drop_last());
        assert(a == a.drop_last().push(last_a));
        assert(b == b.drop_last().push(last_b));
    } else {
        assert(a == b);
    }
}

/// Putting a new value at its place among values that rise leaves them
/// rising.
pub proof fn lemma_rising_insert<O: Ordered>(values: Seq<O::V>, at: int, value: O::V)
    requires
        rising::<O>(values),
        0 <= at <= values.len(),
        forall|k: int| 0 <= k < at ==> O::place(#[trigger] values[k], value) == Place::Before,
        forall|k: int|
            at <= k < values.len() ==> O::place(value, #[trigger] values[k]) == Place::Before,
    ensures
        rising::<O>(values.insert(at, value)),
{
    let after = values.insert(at, value);
    assert forall|i: int, j: int| 0 <= i < j < after.len() implies O::place(
        #[trigger] after[i],
        #[trigger] after[j],
    ) == Place::Before by {
        if j < at {
            assert(O::place(values[i], values[j]) == Place::Before);
        } else if j == at {
            assert(O::place(values[i], value) == Place::Before);
        } else if i < at {
            assert(O::place(values[i], values[j - 1]) == Place::Before);
        } else if i == at {
            assert(O::place(value, values[j - 1]) == Place::Before);
        } else {
            assert(O::place(values[i - 1], values[j - 1]) == Place::Before);
        }
    }
}

/// A sequence with one more value at some place holds that value, what it
/// held before, and nothing else.
pub proof fn lemma_insert_contains<A>(items: Seq<A>, at: int, added: A, value: A)
    requires
        0 <= at <= items.len(),
    ensures
        items.insert(at, added).contains(value) <==> items.contains(value) || value == added,
{
    let longer = items.insert(at, added);
    if longer.contains(value) {
        let i = choose|i: int| 0 <= i < longer.len() && longer[i] == value;
        if i < at {
            assert(items[i] == value);
        } else if i > at {
            assert(items[i - 1] == value);
        }
    }
    if items.contains(value) {
        let i = choose|i: int| 0 <= i < items.len() && items[i] == value;
        if i < at {
            assert(longer[i] == value);
        } else {
            assert(longer[i + 1] == value);
        }
    }
    if value == added {
        assert(longer[at] == value);
    }
}

/// Each of `values` with nothing beside it.
pub open spec fn alone<A>(values: Seq<A>) -> Seq<(A, ())> {
    Seq::new(values.len(), |i: int| (values[i], ()))
}

/// Values that rise are fixed by what they hold: two rising sequences of the
/// same values are one sequence.
pub proof fn lemma_rising_same_values<O: Ordered>(a: Seq<O::V>, b: Seq<O::V>)
    requires
        rising::<O>(a),
        rising::<O>(b),
        forall|value: O::V| a.contains(value) <==> b.contains(value),
    ensures
        a == b,
{
    let pairs_a = alone(a);
    let pairs_b = alone(b);
    assert(keys(pairs_a) == a);
    assert(keys(pairs_b) == b);
    assert forall|key: O::V|
        pairs_map(pairs_a).dom().contains(key) <==> pairs_map(pairs_b).dom().contains(key) by {
        lemma_pairs_dom(pairs_a, key);
        lemma_pairs_dom(pairs_b, key);
        if !absent(pairs_a, key) {
            let i = choose|i: int| 0 <= i < pairs_a.len() && (#[trigger] pairs_a[i]).0 == key;
            assert(a[i] == key);
            assert(b.contains(key));
            let j = choose|j: int| 0 <= j < b.len() && b[j] == key;
            assert(pairs_b[j].0 == key);
        }
        if !absent(pairs_b, key) {
            let i = choose|i: int| 0 <= i < pairs_b.len() && (#[trigger] pairs_b[i]).0 == key;
            assert(b[i] == key);
            assert(a.contains(key));
            let j = choose|j: int| 0 <= j < a.len() && a[j] == key;
            assert(pairs_a[j].0 == key);
        }
    }
    assert(pairs_map(pairs_a) == pairs_map(pairs_b));
    lemma_rising_unique::<O, ()>(pairs_a, pairs_b);
    assert forall|i: int| 0 <= i < a.len() implies a[i] == b[i] by {
        assert(pairs_a[i].0 == pairs_b[i].0);
    }
}

/// The values of `items` as plain values, in order.
pub open spec fn views<K: View>(items: Seq<K>) -> Seq<K::V> {
    Seq::new(items.len(), |i: int| items[i]@)
}

/// Where `key` stands or would have to stand among `keys`, which rise, and
/// whether it stands there.
pub fn locate<K: Ordered>(keys: &Vec<K>, key: &K) -> (r: (usize, bool))
    requires
        rising::<K>(views(keys@)),
    ensures
        r.0 <= keys.len(),
        forall|k: int| 0 <= k < r.0 ==> K::place(#[trigger] views(keys@)[k], key@) == Place::Before,
        forall|k: int|
            r.0 + (if r.1 {
                1int
            } else {
                0int
            }) <= k < keys.len() ==> K::place(key@, #[trigger] views(keys@)[k]) == Place::Before,
        r.1 ==> r.0 < keys.len() && views(keys@)[r.0 as int] == key@,
        r.1 == views(keys@).contains(key@),
{
    let ghost views = views(keys@);
    let mut i: usize = 0;
    let mut found = false;
    while i < keys.len()
        invariant_except_break
            !found,
        invariant
            i <= keys.len(),
            views == crate::pairs::views(keys@),
            rising::<K>(views),
            forall|k: int| 0 <= k < i ==> K::place(#[trigger] views[k], key@) == Place::Before,
        ensures
            i <= keys.len(),
            found ==> i < keys.len() && views[i as int] == key@,
            !found ==> forall|k: int|
                i <= k < keys.len() ==> K::place(key@, #[trigger] views[k]) == Place::Before,
        decreases keys.len() - i,
    {
        let place = keys[i].compare(key);
        proof {
            K::lemma_same(views[i as int], key@);
            K::lemma_flip(key@, views[i as int]);
        }
        match place {
            Place::Before => {
                i += 1;
            },
            Place::Same => {
                found = true;
                break ;
            },
            Place::After => {
                proof {
                    assert forall|k: int| i <= k < keys.len() implies K::place(
                        key@,
                        #[trigger] views[k],
                    ) == Place::Before by {
                        if k > i {
                            assert(K::place(views[i as int], views[k]) == Place::Before);
                            K::lemma_transitive(key@, views[i as int], views[k]);
                        }
                    }
                }
                break ;
            },
        }
    }
    proof {
        if found {
            assert forall|k: int| i + 1 <= k < keys.len() implies K::place(
                key@,
                #[trigger] views[k],
            ) == Place::Before by {
                assert(K::place(views[i as int], views[k]) == Place::Before);
            }
        } else {
            assert forall|k: int| 0 <= k < views.len() implies views[k] != key@ by {
                K::lemma_same(views[k], key@);
                K::lemma_same(key@, views[k]);
            }
        }
    }
    (i, found)
}

} // verus!
