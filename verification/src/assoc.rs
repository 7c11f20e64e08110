use vstd::prelude::*;

verus! {

/// Association lists: sequences of key/value pairs with string keys,
/// looked up by first occurrence. They model both JSON objects and the
/// pending-call table.
///
/// The value bound to the first occurrence of `key`, if any.
pub open spec fn assoc_get<V>(entries: Seq<(Seq<char>, V)>, key: Seq<char>) -> Option<V>
    decreases entries.len(),
{
    if entries.len() == 0 {
        None
    } else if entries[0].0 == key {
        Some(entries[0].1)
    } else {
        assoc_get(entries.drop_first(), key)
    }
}

/// True when some entry is keyed `key`.
pub open spec fn assoc_has<V>(entries: Seq<(Seq<char>, V)>, key: Seq<char>) -> bool {
    assoc_get(entries, key) is Some
}

/// The list after binding `key` to `value`: the first occurrence is
/// replaced in place, or the pair is appended when the key is absent.
pub open spec fn assoc_set<V>(entries: Seq<(Seq<char>, V)>, key: Seq<char>, value: V) -> Seq<
    (Seq<char>, V),
>
    decreases entries.len(),
{
    if entries.len() == 0 {
        seq![(key, value)]
    } else if entries[0].0 == key {
        seq![(key, value)] + entries.drop_first()
    } else {
        seq![entries[0]] + assoc_set(entries.drop_first(), key, value)
    }
}

/// The list with the first occurrence of `key` removed.
pub open spec fn assoc_remove<V>(entries: Seq<(Seq<char>, V)>, key: Seq<char>) -> Seq<
    (Seq<char>, V),
>
    decreases entries.len(),
{
    if entries.len() == 0 {
        entries
    } else if entries[0].0 == key {
        entries.drop_first()
    } else {
        seq![entries[0]] + assoc_remove(entries.drop_first(), key)
    }
}

/// No two entries share a key.
pub open spec fn distinct_keys<V>(entries: Seq<(Seq<char>, V)>) -> bool {
    forall|i: int, j: int|
        0 <= i < j < entries.len() ==> (#[trigger] entries[i].0) != (#[trigger] entries[j].0)
}

/// When the first occurrence of `key` stands at `at`, binding it walks
/// there and replaces it in place.
pub proof fn lemma_assoc_set_at<V>(entries: Seq<(Seq<char>, V)>, key: Seq<char>, value: V, at: int)
    requires
        0 <= at < entries.len(),
        entries[at].0 == key,
        forall|j: int| 0 <= j < at ==> #[trigger] entries[j].0 != key,
    ensures
        assoc_set(entries, key, value) =~= entries.update(at, (key, value)),
    decreases at,
{
    if at == 0 {
    } else {
        lemma_assoc_set_at(entries.drop_first(), key, value, at - 1);
        assert(assoc_set(entries, key, value) =~= seq![entries[0]]
            + entries.drop_first().update(at - 1, (key, value)));
    }
}

/// Binding an absent key appends the pair.
pub proof fn lemma_assoc_set_missing<V>(entries: Seq<(Seq<char>, V)>, key: Seq<char>, value: V)
    requires
        forall|j: int| 0 <= j < entries.len() ==> #[trigger] entries[j].0 != key,
    ensures
        assoc_set(entries, key, value) =~= entries.push((key, value)),
    decreases entries.len(),
{
    if entries.len() > 0 {
        lemma_assoc_set_missing(entries.drop_first(), key, value);
        assert(assoc_set(entries, key, value) =~= seq![entries[0]] + entries.drop_first().push(
            (key, value),
        ));
    }
}

/// When the first occurrence of `key` stands at `at`, removing the key
/// takes exactly that entry out.
pub proof fn lemma_assoc_remove_at<V>(entries: Seq<(Seq<char>, V)>, key: Seq<char>, at: int)
    requires
        0 <= at < entries.len(),
        entries[at].0 == key,
        forall|j: int| 0 <= j < at ==> #[trigger] entries[j].0 != key,
    ensures
        assoc_remove(entries, key) =~= entries.remove(at),
    decreases at,
{
    if at == 0 {
    } else {
        lemma_assoc_remove_at(entries.drop_first(), key, at - 1);
        assert(assoc_remove(entries, key) =~= seq![entries[0]] + entries.drop_first().remove(
            at - 1,
        ));
    }
}

/// Removing an absent key leaves the list alone.
pub proof fn lemma_assoc_remove_missing<V>(entries: Seq<(Seq<char>, V)>, key: Seq<char>)
    requires
        forall|j: int| 0 <= j < entries.len() ==> #[trigger] entries[j].0 != key,
    ensures
        assoc_remove(entries, key) =~= entries,
    decreases entries.len(),
{
    if entries.len() > 0 {
        lemma_assoc_remove_missing(entries.drop_first(), key);
        assert(assoc_remove(entries, key) =~= seq![entries[0]] + entries.drop_first());
    }
}

/// When the first occurrence of `key` stands at `at`, that entry's value
/// is what lookup returns.
pub proof fn lemma_assoc_get_at<V>(entries: Seq<(Seq<char>, V)>, key: Seq<char>, at: int)
    requires
        0 <= at < entries.len(),
        entries[at].0 == key,
        forall|j: int| 0 <= j < at ==> #[trigger] entries[j].0 != key,
    ensures
        assoc_get(entries, key) == Some(entries[at].1),
    decreases at,
{
    if at > 0 {
        lemma_assoc_get_at(entries.drop_first(), key, at - 1);
    }
}

/// Binding a key makes lookup of that key return the new value.
pub proof fn lemma_assoc_get_set_same<V>(entries: Seq<(Seq<char>, V)>, key: Seq<char>, value: V)
    ensures
        assoc_get(assoc_set(entries, key, value), key) == Some(value),
    decreases entries.len(),
{
    if entries.len() > 0 && entries[0].0 != key {
        lemma_assoc_get_set_same(entries.drop_first(), key, value);
        assert((seq![entries[0]] + assoc_set(entries.drop_first(), key, value)).drop_first()
            =~= assoc_set(entries.drop_first(), key, value));
    }
}

/// Binding one key leaves every other key's lookup alone.
pub proof fn lemma_assoc_get_set_other<V>(
    entries: Seq<(Seq<char>, V)>,
    key: Seq<char>,
    value: V,
    other: Seq<char>,
)
    requires
        key != other,
    ensures
        assoc_get(assoc_set(entries, key, value), other) == assoc_get(entries, other),
    decreases entries.len(),
{
    if entries.len() == 0 {
        assert(assoc_set(entries, key, value).drop_first() =~= entries);
    } else if entries[0].0 == key {
        assert((seq![(key, value)] + entries.drop_first()).drop_first() =~= entries.drop_first());
    } else {
        lemma_assoc_get_set_other(entries.drop_first(), key, value, other);
        assert((seq![entries[0]] + assoc_set(entries.drop_first(), key, value)).drop_first()
            =~= assoc_set(entries.drop_first(), key, value));
    }
}

/// A failed lookup means no entry is keyed `key`.
pub proof fn lemma_assoc_none_means_absent<V>(entries: Seq<(Seq<char>, V)>, key: Seq<char>)
    requires
        assoc_get(entries, key) is None,
    ensures
        forall|j: int| 0 <= j < entries.len() ==> #[trigger] entries[j].0 != key,
    decreases entries.len(),
{
    if entries.len() > 0 {
        lemma_assoc_none_means_absent(entries.drop_first(), key);
        assert forall|j: int| 0 <= j < entries.len() implies #[trigger] entries[j].0 != key by {
            if j > 0 {
                assert(entries.drop_first()[j - 1] == entries[j]);
            }
        }
    }
}

/// Lookup of an absent key fails.
pub proof fn lemma_assoc_get_missing<V>(entries: Seq<(Seq<char>, V)>, key: Seq<char>)
    requires
        forall|j: int| 0 <= j < entries.len() ==> #[trigger] entries[j].0 != key,
    ensures
        assoc_get(entries, key) is None,
    decreases entries.len(),
{
    if entries.len() > 0 {
        lemma_assoc_get_missing(entries.drop_first(), key);
    }
}

} // verus!
