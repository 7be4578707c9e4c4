//! An association-list model of the server's lookup tables: the default
//! header set, the status-code table and the MIME table.  Lookups take the
//! first entry whose key matches; overriding replaces that entry in place.

use vstd::prelude::*;

verus! {

/// Whether some entry of `m` has key `k`.
pub open spec fn assoc_has_key<K, V>(m: Seq<(K, V)>, k: K) -> bool
    decreases m.len(),
{
    if m.len() == 0 {
        false
    } else if m[0].0 == k {
        true
    } else {
        assoc_has_key(m.drop_first(), k)
    }
}

/// The value of the first entry of `m` whose key is `k`, if any.
pub open spec fn assoc_find<K, V>(m: Seq<(K, V)>, k: K) -> Option<V>
    decreases m.len(),
{
    if m.len() == 0 {
        None
    } else if m[0].0 == k {
        Some(m[0].1)
    } else {
        assoc_find(m.drop_first(), k)
    }
}

/// `m` with key `k` bound to `v`: the first entry with key `k` is replaced
/// in place, or a new entry is appended when the key is absent.
pub open spec fn assoc_set<K, V>(m: Seq<(K, V)>, k: K, v: V) -> Seq<(K, V)>
    decreases m.len(),
{
    if m.len() == 0 {
        seq![(k, v)]
    } else if m[0].0 == k {
        seq![(k, v)] + m.drop_first()
    } else {
        seq![m[0]] + assoc_set(m.drop_first(), k, v)
    }
}

/// `base` with every entry of `extra` set in order, later entries last.
pub open spec fn assoc_merge<K, V>(base: Seq<(K, V)>, extra: Seq<(K, V)>) -> Seq<(K, V)>
    decreases extra.len(),
{
    if extra.len() == 0 {
        base
    } else {
        assoc_merge(assoc_set(base, extra[0].0, extra[0].1), extra.drop_first())
    }
}

/// No two entries of `m` share a key.
pub open spec fn distinct_keys<K, V>(m: Seq<(K, V)>) -> bool {
    forall|i: int, j: int|
        0 <= i < j < m.len() ==> (#[trigger] m[i]).0 != (#[trigger] m[j]).0
}

pub proof fn lemma_find_some_iff_has_key<K, V>(m: Seq<(K, V)>, k: K)
    ensures
        assoc_find(m, k) is Some <==> assoc_has_key(m, k),
    decreases m.len(),
{
    if m.len() > 0 && m[0].0 != k {
        lemma_find_some_iff_has_key(m.drop_first(), k);
    }
}

/// Setting a key changes exactly that key's binding.
pub proof fn lemma_assoc_set_find<K, V>(m: Seq<(K, V)>, k: K, v: V, q: K)
    ensures
        assoc_find(assoc_set(m, k, v), q) == if q == k {
            Some(v)
        } else {
            assoc_find(m, q)
        },
    decreases m.len(),
{
    if m.len() == 0 {
        let s = assoc_set(m, k, v);
        assert(s.len() == 1 && s[0] == (k, v));
        if q != k {
            assert(s.drop_first() =~= Seq::<(K, V)>::empty());
            assert(assoc_find(s.drop_first(), q) == None::<V>);
        }
        assert(assoc_find(s, q) == if q == k { Some(v) } else { assoc_find(m, q) });
    } else if m[0].0 == k {
        let s = assoc_set(m, k, v);
        assert(s == seq![(k, v)] + m.drop_first());
        assert(s[0] == (k, v));
        if q != k {
            assert(s.drop_first() =~= m.drop_first());
            assert(assoc_find(s, q) == assoc_find(s.drop_first(), q));
            assert(assoc_find(m, q) == assoc_find(m.drop_first(), q));
        }
        assert(assoc_find(s, q) == if q == k { Some(v) } else { assoc_find(m, q) });
    } else {
        let s = assoc_set(m, k, v);
        assert(s == seq![m[0]] + assoc_set(m.drop_first(), k, v));
        assert(s[0] == m[0]);
        assert(s.drop_first() =~= assoc_set(m.drop_first(), k, v));
        lemma_assoc_set_find(m.drop_first(), k, v, q);
        assert(assoc_find(s, q) == if q == k { Some(v) } else { assoc_find(m, q) });
    }
}

/// The law of the merged header set: an extra header with a given name
/// overrides the base binding for that name, and every other name keeps
/// its base binding.
pub proof fn lemma_assoc_merge_find<K, V>(base: Seq<(K, V)>, extra: Seq<(K, V)>, q: K)
    requires
        distinct_keys(extra),
    ensures
        assoc_find(assoc_merge(base, extra), q) == if assoc_has_key(extra, q) {
            assoc_find(extra, q)
        } else {
            assoc_find(base, q)
        },
    decreases extra.len(),
{
    if extra.len() > 0 {
        let rest = extra.drop_first();
        assert(distinct_keys(rest)) by {
            assert(forall|i: int, j: int|
                0 <= i < j < rest.len() ==> (#[trigger] rest[i]).0 != (#[trigger] rest[j]).0)
                by {
                assert(forall|i: int| 0 <= i < rest.len() ==> rest[i] == extra[i + 1]);
            }
        }
        lemma_assoc_merge_find(assoc_set(base, extra[0].0, extra[0].1), rest, q);
        lemma_assoc_set_find(base, extra[0].0, extra[0].1, q);
        if q == extra[0].0 {
            assert(!assoc_has_key(rest, q)) by {
                lemma_find_some_iff_has_key(rest, q);
                if assoc_has_key(rest, q) {
                    lemma_has_key_index(rest, q);
                }
            }
        }
    }
}

/// A present key occurs at some index.
pub proof fn lemma_has_key_index<K, V>(m: Seq<(K, V)>, k: K)
    requires
        assoc_has_key(m, k),
    ensures
        exists|i: int| 0 <= i < m.len() && (#[trigger] m[i]).0 == k,
    decreases m.len(),
{
    if m[0].0 == k {
        assert(0 <= 0 < m.len() && m[0].0 == k);
    } else {
        lemma_has_key_index(m.drop_first(), k);
        let i = choose|i: int| 0 <= i < m.drop_first().len() && (#[trigger] m.drop_first()[i]).0 == k;
        assert(m[i + 1].0 == k);
    }
}

/// A matching index whose predecessors all miss marks the first match.
pub proof fn lemma_assoc_find_at<K, V>(m: Seq<(K, V)>, k: K, i: int)
    requires
        0 <= i < m.len(),
        m[i].0 == k,
        forall|j: int| 0 <= j < i ==> (#[trigger] m[j]).0 != k,
    ensures
        assoc_find(m, k) == Some(m[i].1),
    decreases i,
{
    if i > 0 {
        assert(forall|j: int| 0 <= j < i - 1 ==> (#[trigger] m.drop_first()[j]).0 != k);
        assert(m.drop_first()[i - 1] == m[i]);
        lemma_assoc_find_at(m.drop_first(), k, i - 1);
    }
}

/// When no key matches, the lookup misses.
pub proof fn lemma_assoc_find_none<K, V>(m: Seq<(K, V)>, k: K)
    requires
        forall|j: int| 0 <= j < m.len() ==> (#[trigger] m[j]).0 != k,
    ensures
        assoc_find(m, k) is None,
    decreases m.len(),
{
    if m.len() > 0 {
        assert(forall|j: int| 0 <= j < m.drop_first().len() ==> (#[trigger] m.drop_first()[j]).0 != k);
        lemma_assoc_find_none(m.drop_first(), k);
    }
}

/// An in-place replacement at the first matching index realizes `assoc_set`.
pub proof fn lemma_assoc_set_at<K, V>(m: Seq<(K, V)>, k: K, v: V, i: int)
    requires
        0 <= i < m.len(),
        m[i].0 == k,
        forall|j: int| 0 <= j < i ==> (#[trigger] m[j]).0 != k,
    ensures
        assoc_set(m, k, v) =~= m.update(i, (k, v)),
    decreases i,
{
    if i == 0 {
        assert(assoc_set(m, k, v) =~= seq![(k, v)] + m.drop_first());
    } else {
        assert(forall|j: int| 0 <= j < i - 1 ==> (#[trigger] m.drop_first()[j]).0 != k);
        assert(m.drop_first()[i - 1] == m[i]);
        lemma_assoc_set_at(m.drop_first(), k, v, i - 1);
        assert(assoc_set(m, k, v) =~= seq![m[0]] + assoc_set(m.drop_first(), k, v));
    }
}

/// Appending a fresh key realizes `assoc_set`.
pub proof fn lemma_assoc_set_push<K, V>(m: Seq<(K, V)>, k: K, v: V)
    requires
        forall|j: int| 0 <= j < m.len() ==> (#[trigger] m[j]).0 != k,
    ensures
        assoc_set(m, k, v) =~= m.push((k, v)),
    decreases m.len(),
{
    if m.len() > 0 {
        assert(forall|j: int| 0 <= j < m.drop_first().len() ==> (#[trigger] m.drop_first()[j]).0 != k);
        lemma_assoc_set_push(m.drop_first(), k, v);
    }
}

/// Merging one more extra entry sets it on the merge of the earlier ones.
pub proof fn lemma_assoc_merge_push<K, V>(base: Seq<(K, V)>, extra: Seq<(K, V)>, p: (K, V))
    ensures
        assoc_merge(base, extra.push(p)) == assoc_set(assoc_merge(base, extra), p.0, p.1),
    decreases extra.len(),
{
    if extra.len() == 0 {
        assert(extra.push(p)[0] == p);
        assert(extra.push(p).drop_first() =~= Seq::<(K, V)>::empty());
        assert(assoc_merge(assoc_set(base, p.0, p.1), extra.push(p).drop_first()) == assoc_set(
            base,
            p.0,
            p.1,
        ));
        assert(assoc_merge(base, extra) == base);
    } else {
        assert(extra.push(p)[0] == extra[0]);
        assert(extra.push(p).drop_first() =~= extra.drop_first().push(p));
        lemma_assoc_merge_push(assoc_set(base, extra[0].0, extra[0].1), extra.drop_first(), p);
    }
}

} // verus!
