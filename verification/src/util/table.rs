use vstd::prelude::*;

verus! {

/// The position of the first pair named `key`.
pub open spec fn position_of<K, V>(entries: Seq<(K, V)>, key: K) -> Option<int>
    decreases entries.len(),
{
    if entries.len() == 0 {
        None
    } else if entries[0].0 == key {
        Some(0)
    } else {
        match position_of(entries.skip(1), key) {
            Some(i) => Some(i + 1),
            None => None,
        }
    }
}

/// The value of the pair named `key`.
pub open spec fn lookup<K, V>(entries: Seq<(K, V)>, key: K) -> Option<V> {
    match position_of(entries, key) {
        Some(i) => Some(entries[i].1),
        None => None,
    }
}

/// No name occurs twice.
pub open spec fn keys_unique<K, V>(entries: Seq<(K, V)>) -> bool {
    forall|i: int, j: int|
        0 <= i < j < entries.len() ==> (#[trigger] entries[i]).0 != (#[trigger] entries[j]).0
}

/// `entries` with `key` set to `value`: in its place where the name is there, at
/// the end where it is new.
pub open spec fn put<K, V>(entries: Seq<(K, V)>, key: K, value: V) -> Seq<(K, V)> {
    match position_of(entries, key) {
        Some(i) => entries.update(i, (key, value)),
        None => entries.push((key, value)),
    }
}

/// What `position_of` finds is a pair of that name with none of that name before
/// it, and where it finds nothing no pair has the name.
pub proof fn lemma_position_of<K, V>(entries: Seq<(K, V)>, key: K)
    ensures
        match position_of(entries, key) {
            Some(i) => 0 <= i < entries.len() && entries[i].0 == key && forall|j: int|
                0 <= j < i ==> (#[trigger] entries[j]).0 != key,
            None => forall|j: int| 0 <= j < entries.len() ==> (#[trigger] entries[j]).0 != key,
        },
    decreases entries.len(),
{
    if entries.len() > 0 && entries[0].0 != key {
        let rest = entries.skip(1);
        lemma_position_of(rest, key);
        match position_of(rest, key) {
            Some(i) => {
                assert forall|j: int| 0 <= j < i + 1 implies (#[trigger] entries[j]).0 != key by {
                    if j > 0 {
                        assert(entries[j] == rest[j - 1]);
                    }
                }
            },
            None => {
                assert forall|j: int| 0 <= j < entries.len() implies (#[trigger] entries[j]).0
                    != key by {
                    if j > 0 {
                        assert(entries[j] == rest[j - 1]);
                    }
                }
            },
        }
    }
}

/// The first pair of a name is the one that `position_of` finds.
pub proof fn lemma_position_is<K, V>(entries: Seq<(K, V)>, key: K, at: int)
    requires
        0 <= at < entries.len(),
        entries[at].0 == key,
        forall|j: int| 0 <= j < at ==> (#[trigger] entries[j]).0 != key,
    ensures
        position_of(entries, key) == Some(at),
{
    lemma_position_of(entries, key);
    match position_of(entries, key) {
        Some(i) => {
            if i < at {
                assert(entries[i].0 != key);
            } else if at < i {
                assert(entries[at].0 != key);
            }
        },
        None => {
            assert(entries[at].0 != key);
        },
    }
}

/// Where no pair has the name, `position_of` finds nothing.
pub proof fn lemma_position_none<K, V>(entries: Seq<(K, V)>, key: K)
    requires
        forall|j: int| 0 <= j < entries.len() ==> (#[trigger] entries[j]).0 != key,
    ensures
        position_of(entries, key) is None,
{
    lemma_position_of(entries, key);
    match position_of(entries, key) {
        Some(i) => {
            assert(entries[i].0 != key);
        },
        None => {},
    }
}

/// Setting a name keeps the names apart and the other names as they were, and the
/// name then has the value it was given.
pub proof fn lemma_put<K, V>(entries: Seq<(K, V)>, key: K, value: V)
    requires
        keys_unique(entries),
    ensures
        keys_unique(put(entries, key, value)),
        lookup(put(entries, key, value), key) == Some(value),
        forall|other: K|
            other != key ==> lookup(put(entries, key, value), other) == lookup(entries, other),
{
    let after = put(entries, key, value);
    lemma_position_of(entries, key);
    match position_of(entries, key) {
        Some(p) => {
            assert forall|j: int| 0 <= j < p implies (#[trigger] after[j]).0 != key by {
                assert(entries[j].0 != key);
            }
            lemma_position_is(after, key, p);
            assert forall|i: int, j: int| 0 <= i < j < after.len() implies (#[trigger] after[i]).0
                != (#[trigger] after[j]).0 by {
                assert(entries[i].0 != entries[j].0);
            }
        },
        None => {
            assert forall|j: int| 0 <= j < entries.len() implies (#[trigger] after[j]).0
                != key by {
                assert(entries[j].0 != key);
            }
            lemma_position_is(after, key, entries.len() as int);
            assert forall|i: int, j: int| 0 <= i < j < after.len() implies (#[trigger] after[i]).0
                != (#[trigger] after[j]).0 by {
                if j < entries.len() {
                    assert(entries[i].0 != entries[j].0);
                } else {
                    assert(entries[i].0 != key);
                }
            }
        },
    }
    assert forall|other: K| other != key implies lookup(after, other) == lookup(
        entries,
        other,
    ) by {
        lemma_position_of(entries, other);
        match position_of(entries, other) {
            Some(q) => {
                assert forall|j: int| 0 <= j < q implies (#[trigger] after[j]).0 != other by {
                    assert(entries[j].0 != other);
                }
                lemma_position_is(after, other, q);
            },
            None => {
                assert forall|j: int| 0 <= j < after.len() implies (#[trigger] after[j]).0
                    != other by {
                    if j < entries.len() {
                        assert(entries[j].0 != other);
                    }
                }
                lemma_position_none(after, other);
            },
        }
    }
}

/// The pairs set one after another, first to last, beginning with none: each
/// name has its place where it came first, and the value that it was given last.
pub open spec fn put_each<K, V>(pairs: Seq<(K, V)>) -> Seq<(K, V)>
    decreases pairs.len(),
{
    if pairs.len() == 0 {
        Seq::empty()
    } else {
        put(put_each(pairs.drop_last()), pairs.last().0, pairs.last().1)
    }
}

/// No name occurs twice among pairs that were set one after another.
pub proof fn lemma_put_each_unique<K, V>(pairs: Seq<(K, V)>)
    ensures
        keys_unique(put_each(pairs)),
    decreases pairs.len(),
{
    if pairs.len() > 0 {
        lemma_put_each_unique(pairs.drop_last());
        lemma_put(put_each(pairs.drop_last()), pairs.last().0, pairs.last().1);
    }
}

/// Pairs of which no two have the same name stay as they are when they are set
/// one after another.
pub proof fn lemma_put_each_of_unique<K, V>(pairs: Seq<(K, V)>)
    requires
        keys_unique(pairs),
    ensures
        put_each(pairs) == pairs,
    decreases pairs.len(),
{
    if pairs.len() > 0 {
        let front = pairs.drop_last();
        assert(keys_unique(front)) by {
            assert forall|i: int, j: int| 0 <= i < j < front.len() implies (#[trigger] front[i]).0
                != (#[trigger] front[j]).0 by {
                assert(pairs[i].0 != pairs[j].0);
            }
        }
        lemma_put_each_of_unique(front);
        assert forall|j: int| 0 <= j < front.len() implies (#[trigger] front[j]).0
            != pairs.last().0 by {
            assert(pairs[j].0 != pairs[pairs.len() - 1].0);
        }
        lemma_position_none(front, pairs.last().0);
        assert(put(front, pairs.last().0, pairs.last().1) =~= pairs);
    }
}

/// The position of the first pair named `key`.
pub fn find_name<V: DeepView>(entries: &Vec<(String, V)>, key: &String) -> (r: Option<usize>)
    ensures
        match r {
            Some(i) => position_of(entries.deep_view(), key@) == Some(i as int) && i
                < entries.len(),
            None => position_of(entries.deep_view(), key@) is None,
        },
{
    let ghost all = entries.deep_view();
    let mut i: usize = 0;
    assert(all.skip(0) =~= all);
    while i < entries.len()
        invariant
            i <= entries.len(),
            all == entries.deep_view(),
            all.len() == entries.len(),
            match position_of(all.skip(i as int), key@) {
                Some(k) => position_of(all, key@) == Some(k + i),
                None => position_of(all, key@) is None,
            },
        decreases entries.len() - i,
    {
        assert(all.skip(i as int).skip(1) =~= all.skip(i + 1));
        assert(all[i as int].0 == entries@[i as int].0@);
        if entries[i].0 == *key {
            return Some(i);
        }
        i = i + 1;
    }
    None
}

/// Sets `key` to `value` among pairs that are kept by name: in its place where
/// the name is there, at the end where it is new.
pub fn put_by_name<V: DeepView>(entries: &mut Vec<(String, V)>, key: String, value: V)
    ensures
        final(entries).deep_view() == put(old(entries).deep_view(), key@, value.deep_view()),
{
    let ghost before = entries.deep_view();
    let ghost pair = (key@, value.deep_view());
    match find_name(entries, &key) {
        Some(i) => {
            entries.set(i, (key, value));
            assert(entries.deep_view() =~= before.update(i as int, pair));
        },
        None => {
            entries.push((key, value));
            assert(entries.deep_view() =~= before.push(pair));
        },
    }
}

} // verus!
