//! Lists of pairs that hold each key once, in the order in which the keys
//! first appeared. Attribute lists are such lists, of names and values.

use crate::text::same_text;
use vstd::prelude::*;

verus! {

/// The view of an attribute list: pairs of a name and a value.
pub type Pairs = Seq<(Seq<char>, Seq<char>)>;

/// No two entries of `m` have the same key.
pub open spec fn unique_keys<K, V>(m: Seq<(K, V)>) -> bool {
    forall|i: int, j: int| 0 <= i < j < m.len() ==> (#[trigger] m[i]).0 != (#[trigger] m[j]).0
}

/// Some entry of `m` has the key `key`.
pub open spec fn has_key<K, V>(m: Seq<(K, V)>, key: K) -> bool {
    exists|i: int| 0 <= i < m.len() && (#[trigger] m[i]).0 == key
}

/// The index of the first entry of `m` whose key is `key`.
pub open spec fn position_of<K, V>(m: Seq<(K, V)>, key: K) -> Option<int>
    decreases m.len(),
{
    if m.len() == 0 {
        None
    } else {
        match position_of(m.drop_last(), key) {
            Some(i) => Some(i),
            None => if m.last().0 == key {
                Some(m.len() - 1)
            } else {
                None
            },
        }
    }
}

/// `m` with the value of `key` set to `value`: an entry that has the key
/// keeps its place and takes the new value, a new key goes to the end.
pub open spec fn put<K, V>(m: Seq<(K, V)>, key: K, value: V) -> Seq<(K, V)> {
    match position_of(m, key) {
        Some(i) => m.update(i, (key, value)),
        None => m.push((key, value)),
    }
}

/// The list that results from putting the pairs of `tokens` one after the
/// other into an empty list.
pub open spec fn collect<K, V>(tokens: Seq<(K, V)>) -> Seq<(K, V)>
    decreases tokens.len(),
{
    if tokens.len() == 0 {
        Seq::empty()
    } else {
        put(collect(tokens.drop_last()), tokens.last().0, tokens.last().1)
    }
}

/// `position_of` finds an entry with the key, the first one, exactly when
/// the list has the key.
pub proof fn lemma_position_of<K, V>(m: Seq<(K, V)>, key: K)
    ensures
        match position_of(m, key) {
            Some(i) => 0 <= i < m.len() && m[i].0 == key && forall|j: int|
                0 <= j < i ==> (#[trigger] m[j]).0 != key,
            None => !has_key(m, key),
        },
    decreases m.len(),
{
    if m.len() > 0 {
        lemma_position_of(m.drop_last(), key);
        match position_of(m.drop_last(), key) {
            Some(i) => {
                assert(m.drop_last()[i] == m[i]);
                assert forall|j: int| 0 <= j < i implies (#[trigger] m[j]).0 != key by {
                    assert(m.drop_last()[j] == m[j]);
                }
            },
            None => {
                if m.last().0 == key {
                    assert forall|j: int| 0 <= j < m.len() - 1 implies (#[trigger] m[j]).0
                        != key by {
                        assert(m.drop_last()[j] == m[j]);
                    }
                } else {
                    assert forall|j: int| 0 <= j < m.len() implies (#[trigger] m[j]).0 != key by {
                        if j < m.len() - 1 {
                            assert(m.drop_last()[j] == m[j]);
                        }
                    }
                }
            },
        }
    }
}

/// The key is first found at `i` when the entry at `i` has it and no entry
/// before `i` has.
pub proof fn lemma_position_found<K, V>(m: Seq<(K, V)>, key: K, i: int)
    requires
        0 <= i < m.len(),
        position_of(m.take(i), key) is None,
        m[i].0 == key,
    ensures
        position_of(m, key) == Some(i),
{
    lemma_position_of(m.take(i), key);
    lemma_position_of(m, key);
    if position_of(m, key)->0 < i {
        let p = position_of(m, key)->0;
        assert(m.take(i)[p] == m[p]);
        assert(has_key(m.take(i), key));
    }
}

/// The key is not found up to and with `i` when the entry at `i` does not
/// have it and no entry before `i` has.
pub proof fn lemma_position_not_yet<K, V>(m: Seq<(K, V)>, key: K, i: int)
    requires
        0 <= i < m.len(),
        position_of(m.take(i), key) is None,
        m[i].0 != key,
    ensures
        position_of(m.take(i + 1), key) is None,
{
    assert(m.take(i + 1).drop_last() == m.take(i));
}

/// Putting a pair into a list of unique keys leaves the keys unique.
pub proof fn lemma_put_unique<K, V>(m: Seq<(K, V)>, key: K, value: V)
    requires
        unique_keys(m),
    ensures
        unique_keys(put(m, key, value)),
        has_key(put(m, key, value), key),
{
    lemma_position_of(m, key);
    let r = put(m, key, value);
    match position_of(m, key) {
        Some(p) => {
            assert forall|i: int, j: int| 0 <= i < j < r.len() implies (#[trigger] r[i]).0 != (
            #[trigger] r[j]).0 by {
                assert(m[i].0 != m[j].0);
            }
            assert(r[p].0 == key);
        },
        None => {
            assert forall|i: int, j: int| 0 <= i < j < r.len() implies (#[trigger] r[i]).0 != (
            #[trigger] r[j]).0 by {
                if j < m.len() {
                    assert(m[i].0 != m[j].0);
                } else {
                    assert(m[i].0 != key);
                }
            }
            assert(r[m.len() as int].0 == key);
        },
    }
}

/// A collected list holds each key once.
pub proof fn lemma_collect_unique<K, V>(tokens: Seq<(K, V)>)
    ensures
        unique_keys(collect(tokens)),
    decreases tokens.len(),
{
    if tokens.len() > 0 {
        lemma_collect_unique(tokens.drop_last());
        lemma_put_unique(collect(tokens.drop_last()), tokens.last().0, tokens.last().1);
    }
}

/// Collecting pairs whose keys differ from one another changes nothing.
pub proof fn lemma_collect_of_unique<K, V>(tokens: Seq<(K, V)>)
    requires
        unique_keys(tokens),
    ensures
        collect(tokens) == tokens,
    decreases tokens.len(),
{
    if tokens.len() > 0 {
        let front = tokens.drop_last();
        assert(unique_keys(front)) by {
            assert forall|i: int, j: int| 0 <= i < j < front.len() implies (#[trigger] front[i]).0
                != (#[trigger] front[j]).0 by {
                assert(tokens[i].0 != tokens[j].0);
            }
        }
        lemma_collect_of_unique(front);
        lemma_position_of(front, tokens.last().0);
        if has_key(front, tokens.last().0) {
            let i = choose|i: int|
                0 <= i < front.len() && (#[trigger] front[i]).0 == tokens.last().0;
            assert(tokens[i].0 != tokens[tokens.len() - 1].0);
        }
        assert(front.push(tokens.last()) == tokens);
    }
}

/// The value that a list holds for `key`.
pub open spec fn value_of<K, V>(m: Seq<(K, V)>, key: K) -> Option<V> {
    match position_of(m, key) {
        Some(i) => Some(m[i].1),
        None => None,
    }
}

/// After a pair was put into a list of unique keys, the list holds the new
/// value for its key and the values it held for all other keys.
pub proof fn lemma_value_after_put<K, V>(m: Seq<(K, V)>, key: K, value: V, other: K)
    requires
        unique_keys(m),
    ensures
        value_of(put(m, key, value), other) == if other == key {
            Some(value)
        } else {
            value_of(m, other)
        },
{
    let r = put(m, key, value);
    lemma_put_unique(m, key, value);
    lemma_position_of(m, key);
    lemma_position_of(m, other);
    lemma_position_of(r, other);
    match position_of(r, other) {
        Some(q) => {
            if other == key {
                match position_of(m, key) {
                    Some(p) => {
                        if p != q {
                            assert(r[p].0 == key);
                            if p < q {
                                assert(r[p].0 != r[q].0);
                            } else {
                                assert(r[q].0 != r[p].0);
                            }
                        }
                    },
                    None => {
                        if q < m.len() {
                            assert(m[q].0 == key);
                        }
                    },
                }
            } else {
                assert(q < m.len()) by {
                    if position_of(m, key) is None {
                        if q == m.len() {
                            assert(r[q].0 == key);
                        }
                    }
                }
                assert(m[q].0 == other);
                match position_of(m, other) {
                    Some(p) => {
                        if p != q {
                            if p < q {
                                assert(m[p].0 != m[q].0);
                            } else {
                                assert(m[q].0 != m[p].0);
                            }
                        }
                    },
                    None => {},
                }
            }
        },
        None => {
            if other == key {
                assert(has_key(r, key));
            } else {
                match position_of(m, other) {
                    Some(p) => {
                        assert(r[p].0 == other);
                        assert(has_key(r, other));
                    },
                    None => {},
                }
            }
        },
    }
}

/// The view of a stored attribute list.
pub open spec fn pairs_view(list: Seq<(String, String)>) -> Pairs {
    Seq::new(list.len(), |i: int| (list[i].0@, list[i].1@))
}

/// Sets the value of `key` in `list`: an entry that has the name keeps its
/// place and takes the new value, a new name goes to the end.
pub fn put_attribute(list: &mut Vec<(String, String)>, key: String, value: String)
    ensures
        pairs_view(final(list)@) == put(pairs_view(old(list)@), key@, value@),
{
    let ghost before = pairs_view(list@);
    let mut i: usize = 0;
    while i < list.len()
        invariant
            i <= list.len(),
            list@ == old(list)@,
            before == pairs_view(list@),
            position_of(before.take(i as int), key@) is None,
        decreases list.len() - i,
    {
        if same_text(list[i].0.as_str(), key.as_str()) {
            proof {
                lemma_position_found(before, key@, i as int);
            }
            list.set(i, (key, value));
            assert(pairs_view(list@) == before.update(i as int, (key@, value@)));
            return ;
        }
        proof {
            lemma_position_not_yet(before, key@, i as int);
        }
        i += 1;
    }
    proof {
        assert(before.take(list.len() as int) == before);
    }
    list.push((key, value));
    assert(pairs_view(list@) == before.push((key@, value@)));
}

} // verus!
