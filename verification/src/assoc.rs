//! Named values kept as a list of `(name, value)` entries in which every name
//! occurs once: the form in which a mesh holds its point, cell and field data.
use crate::text::text_eq;
use vstd::prelude::*;

verus! {

/// The position of the first entry named `k`, or -1 if there is none.
pub open spec fn key_index<W>(s: Seq<(Seq<char>, W)>, k: Seq<char>) -> int
    decreases s.len(),
{
    if s.len() == 0 {
        -1
    } else {
        let p = key_index(s.drop_last(), k);
        if p >= 0 {
            p
        } else if s.last().0 == k {
            s.len() - 1
        } else {
            -1
        }
    }
}

/// The entries after storing `v` under the name `k`: an entry of that name
/// gets the new value in place, otherwise a new entry is added at the end.
pub open spec fn assoc_insert<W>(s: Seq<(Seq<char>, W)>, k: Seq<char>, v: W) -> Seq<
    (Seq<char>, W),
> {
    let i = key_index(s, k);
    if i >= 0 {
        s.update(i, (k, v))
    } else {
        s.push((k, v))
    }
}

/// The value stored under a name, if any.
pub open spec fn assoc_lookup<W>(s: Seq<(Seq<char>, W)>, k: Seq<char>) -> Option<W> {
    let i = key_index(s, k);
    if i >= 0 {
        Some(s[i].1)
    } else {
        None
    }
}

/// No name occurs in two entries.
pub open spec fn keys_distinct<W>(s: Seq<(Seq<char>, W)>) -> bool {
    forall|i: int, j: int| 0 <= i < j < s.len() ==> s[i].0 != s[j].0
}

/// The entries that storing each pair in turn into `s` leaves.
pub open spec fn assoc_insert_all<W>(s: Seq<(Seq<char>, W)>, pairs: Seq<(Seq<char>, W)>) -> Seq<
    (Seq<char>, W),
>
    decreases pairs.len(),
{
    if pairs.len() == 0 {
        s
    } else {
        let p = pairs.last();
        assoc_insert(assoc_insert_all(s, pairs.drop_last()), p.0, p.1)
    }
}

/// The entries that storing each pair in turn, starting from no entries, leaves.
pub open spec fn assoc_from_pairs<W>(pairs: Seq<(Seq<char>, W)>) -> Seq<(Seq<char>, W)> {
    assoc_insert_all(seq![], pairs)
}

/// Storing two runs of pairs one after the other is storing their concatenation.
pub proof fn lemma_insert_all_concat<W>(
    s: Seq<(Seq<char>, W)>,
    a: Seq<(Seq<char>, W)>,
    b: Seq<(Seq<char>, W)>,
)
    ensures
        assoc_insert_all(s, a + b) == assoc_insert_all(assoc_insert_all(s, a), b),
    decreases b.len(),
{
    if b.len() == 0 {
        assert(a + b =~= a);
    } else {
        lemma_insert_all_concat(s, a, b.drop_last());
        assert((a + b).drop_last() =~= a + b.drop_last());
    }
}

/// Storing one more pair.
pub proof fn lemma_insert_all_push<W>(
    s: Seq<(Seq<char>, W)>,
    a: Seq<(Seq<char>, W)>,
    p: (Seq<char>, W),
)
    ensures
        assoc_insert_all(s, a.push(p)) == assoc_insert(assoc_insert_all(s, a), p.0, p.1),
{
    assert(a.push(p).drop_last() =~= a);
}

/// The names and viewed values of entries.
pub open spec fn entries_view<V, W>(s: Seq<(String, V)>, f: spec_fn(V) -> W) -> Seq<
    (Seq<char>, W),
> {
    s.map_values(|e: (String, V)| (e.0@, f(e.1)))
}

/// `key_index` finds the first entry of a name, or reports that there is none.
pub proof fn lemma_key_index<W>(s: Seq<(Seq<char>, W)>, k: Seq<char>)
    ensures
        -1 <= key_index(s, k) < s.len(),
        key_index(s, k) >= 0 ==> s[key_index(s, k)].0 == k,
        forall|j: int|
            0 <= j < s.len() && (key_index(s, k) == -1 || j < key_index(s, k)) ==> #[trigger] s[j].0
                != k,
    decreases s.len(),
{
    if s.len() > 0 {
        let init = s.drop_last();
        lemma_key_index(init, k);
        assert forall|j: int|
            0 <= j < s.len() && (key_index(s, k) == -1 || j < key_index(s, k)) implies #[trigger] s[j].0
            != k by {
            if j < s.len() - 1 {
                assert(s[j] == init[j]);
            }
        }
    }
}

/// Storing a value keeps names distinct.
pub proof fn lemma_insert_distinct<W>(s: Seq<(Seq<char>, W)>, k: Seq<char>, v: W)
    requires
        keys_distinct(s),
    ensures
        keys_distinct(assoc_insert(s, k, v)),
{
    lemma_key_index(s, k);
}

/// Storing pairs whose names are distinct, starting from no entries, gives the
/// pairs themselves.
pub proof fn lemma_from_distinct_pairs<W>(pairs: Seq<(Seq<char>, W)>)
    requires
        keys_distinct(pairs),
    ensures
        assoc_from_pairs(pairs) == pairs,
    decreases pairs.len(),
{
    if pairs.len() > 0 {
        let init = pairs.drop_last();
        assert(keys_distinct(init));
        lemma_from_distinct_pairs(init);
        lemma_key_index(init, pairs.last().0);
        assert(key_index(init, pairs.last().0) == -1);
        assert(init.push(pairs.last()) =~= pairs);
    }
}

/// Storing pairs into entries with distinct names leaves distinct names.
pub proof fn lemma_insert_all_distinct<W>(s: Seq<(Seq<char>, W)>, pairs: Seq<(Seq<char>, W)>)
    requires
        keys_distinct(s),
    ensures
        keys_distinct(assoc_insert_all(s, pairs)),
    decreases pairs.len(),
{
    if pairs.len() > 0 {
        lemma_insert_all_distinct(s, pairs.drop_last());
        lemma_insert_distinct(assoc_insert_all(s, pairs.drop_last()), pairs.last().0, pairs.last().1);
    }
}

/// The entries that storing pairs leaves have distinct names.
pub proof fn lemma_from_pairs_distinct<W>(pairs: Seq<(Seq<char>, W)>)
    ensures
        keys_distinct(assoc_from_pairs(pairs)),
{
    lemma_insert_all_distinct(Seq::<(Seq<char>, W)>::empty(), pairs);
}

/// Mapping the values of entries does not move the entry of a name.
pub proof fn lemma_key_index_view<V, W>(s: Seq<(String, V)>, f: spec_fn(V) -> W, k: Seq<char>)
    ensures
        key_index(entries_view(s, f), k) == key_index(entries_view(s, |v: V| v), k),
    decreases s.len(),
{
    if s.len() > 0 {
        lemma_key_index_view(s.drop_last(), f, k);
        assert(entries_view(s.drop_last(), f) =~= entries_view(s, f).drop_last());
        assert(entries_view(s.drop_last(), |v: V| v) =~= entries_view(s, |v: V| v).drop_last());
    }
}

/// The position of the first entry whose name is `key`.
pub fn find_key<V>(entries: &Vec<(String, V)>, key: &str) -> (r: Option<usize>)
    ensures
        match r {
            Some(i) => i < entries@.len() && i as int == key_index(
                entries_view(entries@, |v: V| v),
                key@,
            ),
            None => key_index(entries_view(entries@, |v: V| v), key@) == -1,
        },
{
    let ghost ev = entries_view(entries@, |v: V| v);
    proof {
        lemma_key_index(ev, key@);
    }
    let mut j: usize = 0;
    while j < entries.len()
        invariant
            ev == entries_view(entries@, |v: V| v),
            j <= entries.len(),
            -1 <= key_index(ev, key@) < entries@.len(),
            key_index(ev, key@) >= 0 ==> ev[key_index(ev, key@)].0 == key@,
            forall|i: int| 0 <= i < j ==> #[trigger] ev[i].0 != key@,
        decreases entries.len() - j,
    {
        assert(ev[j as int].0 == entries@[j as int].0@);
        if text_eq(entries[j].0.as_str(), key) {
            proof {
                lemma_key_index(ev, key@);
                assert(ev[j as int].0 == entries@[j as int].0@);
            }
            return Some(j);
        }
        j = j + 1;
    }
    None
}

/// Stores `value` under the name of `key`, replacing the value of an entry of
/// that name or adding a new entry at the end. `f` is the view under which the
/// values are described.
pub fn assoc_store<V, W>(
    entries: &mut Vec<(String, V)>,
    key: String,
    value: V,
    Ghost(f): Ghost<spec_fn(V) -> W>,
)
    ensures
        entries_view(final(entries)@, f) == assoc_insert(entries_view(old(entries)@, f), key@, f(value)),
{
    proof {
        lemma_key_index_view(entries@, f, key@);
    }
    let ghost before = entries_view(entries@, f);
    match find_key(entries, key.as_str()) {
        Some(i) => {
            entries.set(i, (key, value));
            assert(entries_view(entries@, f) =~= before.update(i as int, (key@, f(value))));
        },
        None => {
            entries.push((key, value));
            assert(entries_view(entries@, f) =~= before.push((key@, f(value))));
        },
    }
}

/// The value stored under a name, if any.
pub fn lookup<'a, V>(entries: &'a Vec<(String, V)>, key: &str) -> (r: Option<&'a V>)
    ensures
        match r {
            Some(v) => assoc_lookup(entries_view(entries@, |v: V| v), key@) == Some(*v),
            None => assoc_lookup(entries_view(entries@, |v: V| v), key@) is None,
        },
{
    match find_key(entries, key) {
        Some(i) => Some(&entries[i].1),
        None => None,
    }
}

} // verus!
