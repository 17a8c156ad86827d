//! Key-ordered listings: a sequence that lists the entries of a map in
//! ascending key order (the iteration order of a `BTreeMap` keyed by text).

use vstd::prelude::*;

use crate::text::{lemma_lex_lt_asymmetric, lemma_lex_lt_irreflexive, lemma_lex_lt_total, lemma_lex_lt_transitive, lex_lt};

verus! {

/// Keys strictly ascend along `t`.
pub open spec fn keys_ascending<V>(t: Seq<V>, key: spec_fn(V) -> Seq<char>) -> bool {
    forall|i: int, j: int| 0 <= i < j < t.len() ==> lex_lt(#[trigger] key(t[i]), #[trigger] key(t[j]))
}

/// `t` lists exactly the entries of `m`, in ascending key order.
pub open spec fn lists<V>(t: Seq<V>, key: spec_fn(V) -> Seq<char>, m: Map<Seq<char>, V>) -> bool {
    &&& keys_ascending(t, key)
    &&& forall|i: int| 0 <= i < t.len() ==> #[trigger] m.contains_key(key(t[i])) && m[key(t[i])] == t[i]
    &&& forall|k: Seq<char>| #[trigger] m.contains_key(k) ==> exists|i: int| 0 <= i < t.len() && key(t[i]) == k
}

/// Inserting one entry: a present key with a different value is a conflict,
/// an equal entry leaves the map as it is.
pub open spec fn insert_entry<V, E>(
    m: Map<Seq<char>, V>,
    v: V,
    key: spec_fn(V) -> Seq<char>,
    conflict: spec_fn(Seq<char>) -> E,
) -> Result<Map<Seq<char>, V>, E> {
    if m.contains_key(key(v)) {
        if m[key(v)] == v {
            Ok(m)
        } else {
            Err(conflict(key(v)))
        }
    } else {
        Ok(m.insert(key(v), v))
    }
}

/// The key-ordered listing of `m`.
pub open spec fn listing<V>(m: Map<Seq<char>, V>, key: spec_fn(V) -> Seq<char>) -> Seq<V> {
    choose|t: Seq<V>| lists(t, key, m)
}

/// Inserting the entries of `items` one by one into `m`: an entry whose key is
/// present with a different value is a conflict, reported through `conflict`;
/// an equal entry is skipped; entries failing `keep` are not looked at.
pub open spec fn fold_insert<V, E>(
    m: Map<Seq<char>, V>,
    items: Seq<V>,
    key: spec_fn(V) -> Seq<char>,
    keep: spec_fn(V) -> bool,
    conflict: spec_fn(Seq<char>) -> E,
) -> Result<Map<Seq<char>, V>, E>
    decreases items.len(),
{
    if items.len() == 0 {
        Ok(m)
    } else {
        match fold_insert(m, items.drop_last(), key, keep, conflict) {
            Err(e) => Err(e),
            Ok(m1) => {
                let v = items.last();
                if !keep(v) {
                    Ok(m1)
                } else {
                    insert_entry(m1, v, key, conflict)
                }
            },
        }
    }
}

pub proof fn lemma_fold_step<V, E>(
    m: Map<Seq<char>, V>,
    items: Seq<V>,
    i: int,
    key: spec_fn(V) -> Seq<char>,
    keep: spec_fn(V) -> bool,
    conflict: spec_fn(Seq<char>) -> E,
)
    requires
        0 <= i < items.len(),
    ensures
        fold_insert(m, items.take(i + 1), key, keep, conflict) == match fold_insert(m, items.take(i), key, keep, conflict) {
            Err(e) => Err(e),
            Ok(m1) => {
                let v = items[i];
                if !keep(v) {
                    Ok(m1)
                } else {
                    insert_entry(m1, v, key, conflict)
                }
            },
        },
{
    assert(items.take(i + 1).drop_last() =~= items.take(i));
}

pub proof fn lemma_fold_err_prefix<V, E>(
    m: Map<Seq<char>, V>,
    items: Seq<V>,
    k: int,
    key: spec_fn(V) -> Seq<char>,
    keep: spec_fn(V) -> bool,
    conflict: spec_fn(Seq<char>) -> E,
)
    requires
        0 <= k <= items.len(),
        fold_insert(m, items.take(k), key, keep, conflict) is Err,
    ensures
        fold_insert(m, items, key, keep, conflict) == fold_insert(m, items.take(k), key, keep, conflict),
    decreases items.len() - k,
{
    if k == items.len() {
        assert(items.take(k) =~= items);
    } else {
        assert(items.drop_last().take(k) =~= items.take(k));
        lemma_fold_err_prefix(m, items.drop_last(), k, key, keep, conflict);
    }
}

pub proof fn lemma_fold_full<V, E>(
    m: Map<Seq<char>, V>,
    items: Seq<V>,
    key: spec_fn(V) -> Seq<char>,
    keep: spec_fn(V) -> bool,
    conflict: spec_fn(Seq<char>) -> E,
)
    ensures
        fold_insert(m, items.take(items.len() as int), key, keep, conflict) == fold_insert(m, items, key, keep, conflict),
{
    assert(items.take(items.len() as int) =~= items);
}

/// Each listed entry is the map's entry for its key.
pub proof fn lemma_lists_entry<V>(t: Seq<V>, key: spec_fn(V) -> Seq<char>, m: Map<Seq<char>, V>, i: int)
    requires
        lists(t, key, m),
        0 <= i < t.len(),
    ensures
        m.contains_key(key(t[i])),
        m[key(t[i])] == t[i],
{
    assert(m.contains_key(key(t[i])));
}

/// The empty sequence lists the empty map.
pub proof fn lemma_lists_empty<V>(key: spec_fn(V) -> Seq<char>)
    ensures
        lists(Seq::<V>::empty(), key, Map::<Seq<char>, V>::empty()),
{
}

/// A key smaller than every key from `p` on, and larger than all before `p`,
/// is absent; inserting the entry at `p` keeps the listing.
pub proof fn lemma_lists_insert<V>(
    t: Seq<V>,
    key: spec_fn(V) -> Seq<char>,
    m: Map<Seq<char>, V>,
    p: int,
    v: V,
)
    requires
        lists(t, key, m),
        0 <= p <= t.len(),
        forall|i: int| 0 <= i < p ==> lex_lt(#[trigger] key(t[i]), key(v)),
        p < t.len() ==> lex_lt(key(v), key(t[p])),
    ensures
        !m.contains_key(key(v)),
        lists(t.insert(p, v), key, m.insert(key(v), v)),
{
    let k = key(v);
    let t2 = t.insert(p, v);
    let m2 = m.insert(k, v);
    assert forall|j: int| p <= j < t.len() implies lex_lt(k, #[trigger] key(t[j])) by {
        if j > p {
            assert(lex_lt(key(t[p]), key(t[j])));
            lemma_lex_lt_transitive(k, key(t[p]), key(t[j]));
        }
    }
    if m.contains_key(k) {
        let i = choose|i: int| 0 <= i < t.len() && key(t[i]) == k;
        if i < p {
            lemma_lex_lt_irreflexive(k);
        } else {
            lemma_lex_lt_irreflexive(k);
        }
    }
    assert forall|a: int, b: int| 0 <= a < b < t2.len() implies lex_lt(#[trigger] key(t2[a]), #[trigger] key(t2[b])) by {
        if a < p && b < p {
            assert(t2[a] == t[a] && t2[b] == t[b]);
        } else if a < p && b == p {
            assert(t2[b] == v);
        } else if a < p && b > p {
            assert(t2[a] == t[a] && t2[b] == t[b - 1]);
            assert(lex_lt(key(t[a]), k));
            assert(lex_lt(k, key(t[b - 1])));
            lemma_lex_lt_transitive(key(t[a]), k, key(t[b - 1]));
        } else if a == p {
            assert(t2[a] == v && t2[b] == t[b - 1]);
        } else {
            assert(t2[a] == t[a - 1] && t2[b] == t[b - 1]);
        }
    }
    assert forall|i: int| 0 <= i < t2.len() implies #[trigger] m2.contains_key(key(t2[i])) && m2[key(t2[i])] == t2[i] by {
        if i < p {
            assert(t2[i] == t[i]);
            assert(lex_lt(key(t[i]), k));
            lemma_lex_lt_irreflexive(k);
            assert(key(t[i]) != k);
            lemma_lists_entry(t, key, m, i);
        } else if i > p {
            assert(t2[i] == t[i - 1]);
            assert(lex_lt(k, key(t[i - 1])));
            lemma_lex_lt_irreflexive(k);
            assert(key(t[i - 1]) != k);
            lemma_lists_entry(t, key, m, i - 1);
        } else {
            assert(t2[i] == v);
        }
    }
    assert forall|kk: Seq<char>| #[trigger] m2.contains_key(kk) implies exists|i: int| 0 <= i < t2.len() && key(t2[i]) == kk by {
        if kk == k {
            assert(key(t2[p]) == kk);
        } else {
            let i = choose|i: int| 0 <= i < t.len() && key(t[i]) == kk;
            if i < p {
                assert(key(t2[i]) == kk);
            } else {
                assert(key(t2[i + 1]) == kk);
            }
        }
    }
}

/// The position at which a key sits in a listing, or where it would go.
pub proof fn lemma_lists_position<V>(
    t: Seq<V>,
    key: spec_fn(V) -> Seq<char>,
    m: Map<Seq<char>, V>,
    p: int,
    k: Seq<char>,
)
    requires
        lists(t, key, m),
        0 <= p <= t.len(),
        forall|i: int| 0 <= i < p ==> lex_lt(#[trigger] key(t[i]), k),
        p < t.len() ==> !lex_lt(key(t[p]), k),
    ensures
        p < t.len() && key(t[p]) == k ==> m.contains_key(k) && m[k] == t[p],
        !(p < t.len() && key(t[p]) == k) ==> !m.contains_key(k) && (p < t.len() ==> lex_lt(k, key(t[p]))),
{
    if p < t.len() && key(t[p]) != k {
        lemma_lex_lt_total(k, key(t[p]));
    }
    if !(p < t.len() && key(t[p]) == k) && m.contains_key(k) {
        let i = choose|i: int| 0 <= i < t.len() && key(t[i]) == k;
        if i < p {
            lemma_lex_lt_irreflexive(k);
        } else if i > p {
            assert(lex_lt(key(t[p]), key(t[i])));
            lemma_lex_lt_asymmetric(key(t[p]), k);
        }
    }
}

/// A listing of `m` is `listing(m, key)`.
pub proof fn lemma_listing<V>(t: Seq<V>, key: spec_fn(V) -> Seq<char>, m: Map<Seq<char>, V>)
    requires
        lists(t, key, m),
    ensures
        listing(m, key) == t,
{
    lemma_lists_unique(t, listing(m, key), key, m);
}

/// Replacing the entry at `p` by one with the same key keeps the listing.
pub proof fn lemma_lists_replace<V>(
    t: Seq<V>,
    key: spec_fn(V) -> Seq<char>,
    m: Map<Seq<char>, V>,
    p: int,
    v: V,
)
    requires
        lists(t, key, m),
        0 <= p < t.len(),
        key(t[p]) == key(v),
    ensures
        lists(t.update(p, v), key, m.insert(key(v), v)),
{
    let t2 = t.update(p, v);
    let m2 = m.insert(key(v), v);
    assert forall|a: int, b: int| 0 <= a < b < t2.len() implies lex_lt(#[trigger] key(t2[a]), #[trigger] key(t2[b])) by {
        assert(lex_lt(key(t[a]), key(t[b])));
    }
    assert forall|i: int| 0 <= i < t2.len() implies #[trigger] m2.contains_key(key(t2[i])) && m2[key(t2[i])] == t2[i] by {
        if i != p {
            lemma_lists_entry(t, key, m, i);
            if i < p {
                assert(lex_lt(key(t[i]), key(t[p])));
            } else {
                assert(lex_lt(key(t[p]), key(t[i])));
            }
            lemma_lex_lt_irreflexive(key(v));
        }
    }
    assert forall|kk: Seq<char>| #[trigger] m2.contains_key(kk) implies exists|i: int| 0 <= i < t2.len() && key(t2[i]) == kk by {
        if kk == key(v) {
            assert(key(t2[p]) == kk);
        } else {
            let i = choose|i: int| 0 <= i < t.len() && key(t[i]) == kk;
            assert(key(t2[i]) == kk);
        }
    }
}

/// Two listings of the same map are the same sequence.
pub proof fn lemma_lists_unique<V>(
    t1: Seq<V>,
    t2: Seq<V>,
    key: spec_fn(V) -> Seq<char>,
    m: Map<Seq<char>, V>,
)
    requires
        lists(t1, key, m),
        lists(t2, key, m),
    ensures
        t1 == t2,
    decreases t1.len() + t2.len(),
{
    if t1.len() == 0 && t2.len() > 0 {
        assert(m.contains_key(key(t2[0])));
    } else if t2.len() == 0 && t1.len() > 0 {
        assert(m.contains_key(key(t1[0])));
    } else if t1.len() > 0 && t2.len() > 0 {
        let a = key(t1[0]);
        let b = key(t2[0]);
        assert(m.contains_key(a));
        assert(m.contains_key(b));
        let j = choose|j: int| 0 <= j < t2.len() && key(t2[j]) == a;
        let i = choose|i: int| 0 <= i < t1.len() && key(t1[i]) == b;
        if a != b {
            if j > 0 {
                assert(lex_lt(b, a));
            }
            if i > 0 {
                assert(lex_lt(a, b));
            }
            lemma_lex_lt_irreflexive(a);
            lemma_lex_lt_irreflexive(b);
            if j > 0 && i > 0 {
                lemma_lex_lt_asymmetric(a, b);
            }
        }
        assert(t1[0] == t2[0]);
        let r1 = t1.drop_first();
        let r2 = t2.drop_first();
        let mr = m.remove(a);
        assert(lists(r1, key, mr)) by {
            assert forall|x: int, y: int| 0 <= x < y < r1.len() implies lex_lt(#[trigger] key(r1[x]), #[trigger] key(r1[y])) by {
                assert(r1[x] == t1[x + 1] && r1[y] == t1[y + 1]);
            }
            assert forall|x: int| 0 <= x < r1.len() implies #[trigger] mr.contains_key(key(r1[x])) && mr[key(r1[x])] == r1[x] by {
                assert(r1[x] == t1[x + 1]);
                assert(lex_lt(key(t1[0]), key(t1[x + 1])));
                lemma_lex_lt_irreflexive(a);
                lemma_lists_entry(t1, key, m, x + 1);
            }
            assert forall|kk: Seq<char>| #[trigger] mr.contains_key(kk) implies exists|x: int| 0 <= x < r1.len() && key(r1[x]) == kk by {
                let x = choose|x: int| 0 <= x < t1.len() && key(t1[x]) == kk;
                assert(x != 0);
                assert(key(r1[x - 1]) == kk);
            }
        }
        assert(lists(r2, key, mr)) by {
            assert forall|x: int, y: int| 0 <= x < y < r2.len() implies lex_lt(#[trigger] key(r2[x]), #[trigger] key(r2[y])) by {
                assert(r2[x] == t2[x + 1] && r2[y] == t2[y + 1]);
            }
            assert forall|x: int| 0 <= x < r2.len() implies #[trigger] mr.contains_key(key(r2[x])) && mr[key(r2[x])] == r2[x] by {
                assert(r2[x] == t2[x + 1]);
                assert(lex_lt(key(t2[0]), key(t2[x + 1])));
                lemma_lex_lt_irreflexive(a);
                lemma_lists_entry(t2, key, m, x + 1);
            }
            assert forall|kk: Seq<char>| #[trigger] mr.contains_key(kk) implies exists|x: int| 0 <= x < r2.len() && key(r2[x]) == kk by {
                let x = choose|x: int| 0 <= x < t2.len() && key(t2[x]) == kk;
                assert(x != 0);
                assert(key(r2[x - 1]) == kk);
            }
        }
        lemma_lists_unique(r1, r2, key, mr);
        assert(t1 =~= seq![t1[0]] + r1);
        assert(t2 =~= seq![t2[0]] + r2);
    }
}


/// The first position from `i` on whose key is not below `k`, or the length.
pub open spec fn first_not_below<V>(t: Seq<V>, key: spec_fn(V) -> Seq<char>, k: Seq<char>, i: int) -> int
    decreases t.len() - i,
{
    if i < 0 || i >= t.len() {
        t.len() as int
    } else if !lex_lt(key(t[i]), k) {
        i
    } else {
        first_not_below(t, key, k, i + 1)
    }
}

proof fn lemma_first_not_below<V>(t: Seq<V>, key: spec_fn(V) -> Seq<char>, k: Seq<char>, i: int)
    requires
        0 <= i <= t.len(),
        forall|j: int| 0 <= j < i ==> lex_lt(#[trigger] key(t[j]), k),
    ensures
        i <= first_not_below(t, key, k, i) <= t.len(),
        forall|j: int| 0 <= j < first_not_below(t, key, k, i) ==> lex_lt(#[trigger] key(t[j]), k),
        first_not_below(t, key, k, i) < t.len() ==> !lex_lt(key(t[first_not_below(t, key, k, i)]), k),
    decreases t.len() - i,
{
    if i < t.len() && lex_lt(key(t[i]), k) {
        assert forall|j: int| 0 <= j < i + 1 implies lex_lt(#[trigger] key(t[j]), k) by {
            if j < i {
            }
        }
        lemma_first_not_below(t, key, k, i + 1);
    }
}

/// Adding an entry to a listed map leaves a map that can be listed.
pub proof fn lemma_lists_add<V>(t: Seq<V>, key: spec_fn(V) -> Seq<char>, m: Map<Seq<char>, V>, v: V)
    requires
        lists(t, key, m),
    ensures
        exists|t2: Seq<V>| #[trigger] lists(t2, key, m.insert(key(v), v)),
{
    let k = key(v);
    lemma_first_not_below(t, key, k, 0);
    let p = first_not_below(t, key, k, 0);
    lemma_lists_position(t, key, m, p, k);
    if p < t.len() && key(t[p]) == k {
        lemma_lists_replace(t, key, m, p, v);
    } else {
        lemma_lists_insert(t, key, m, p, v);
    }
}

} // verus!
