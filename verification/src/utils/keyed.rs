//! Lists of entries with distinct text keys, seen as maps.
use vstd::prelude::*;

verus! {

/// No two entries of `s` have the same key.
pub open spec fn keys_distinct<V>(s: Seq<(Seq<char>, V)>) -> bool {
    forall|i: int, j: int| 0 <= i < s.len() && 0 <= j < s.len() && i != j ==> s[i].0 != s[j].0
}

/// The entries of `s` as a map from keys to values.
pub open spec fn keyed_map<V>(s: Seq<(Seq<char>, V)>) -> Map<Seq<char>, V> {
    Map::new(
        |k: Seq<char>| exists|i: int| 0 <= i < s.len() && s[i].0 == k,
        |k: Seq<char>| s[choose|i: int| 0 <= i < s.len() && s[i].0 == k].1,
    )
}

/// With distinct keys, the map holds each entry's value under its key.
pub proof fn lemma_keyed_map_at<V>(s: Seq<(Seq<char>, V)>, i: int)
    requires
        keys_distinct(s),
        0 <= i < s.len(),
    ensures
        keyed_map(s).contains_key(s[i].0),
        keyed_map(s)[s[i].0] == s[i].1,
{
    let k = s[i].0;
    assert(exists|j: int| 0 <= j < s.len() && s[j].0 == k);
    let c = choose|j: int| 0 <= j < s.len() && s[j].0 == k;
    assert(c == i);
}

/// A key that no entry has is not in the map.
pub proof fn lemma_keyed_map_absent<V>(s: Seq<(Seq<char>, V)>, k: Seq<char>)
    requires
        forall|j: int| 0 <= j < s.len() ==> s[j].0 != k,
    ensures
        !keyed_map(s).contains_key(k),
{
}

/// Giving the entry at `i` a new value sets the value of its key.
pub proof fn lemma_keyed_update<V>(s: Seq<(Seq<char>, V)>, i: int, v: V)
    requires
        keys_distinct(s),
        0 <= i < s.len(),
    ensures
        keys_distinct(s.update(i, (s[i].0, v))),
        keyed_map(s.update(i, (s[i].0, v))) == keyed_map(s).insert(s[i].0, v),
{
    let t = s.update(i, (s[i].0, v));
    assert forall|p: int, q: int| 0 <= p < t.len() && 0 <= q < t.len() && p != q implies t[p].0 != t[q].0 by {
        assert(t[p].0 == s[p].0);
        assert(t[q].0 == s[q].0);
    }
    lemma_keyed_map_at(t, i);
    assert forall|k: Seq<char>| #[trigger] keyed_map(t).contains_key(k) <==> keyed_map(s).insert(s[i].0, v).contains_key(k) by {
        if exists|j: int| 0 <= j < s.len() && s[j].0 == k {
            let j = choose|j: int| 0 <= j < s.len() && s[j].0 == k;
            assert(t[j].0 == k);
        }
        if exists|j: int| 0 <= j < t.len() && t[j].0 == k {
            let j = choose|j: int| 0 <= j < t.len() && t[j].0 == k;
            assert(s[j].0 == k);
        }
    }
    assert forall|k: Seq<char>| keyed_map(t).contains_key(k) implies #[trigger] keyed_map(t)[k] == keyed_map(s).insert(s[i].0, v)[k] by {
        if k != s[i].0 {
            let j = choose|j: int| 0 <= j < t.len() && t[j].0 == k;
            assert(j != i);
            lemma_keyed_map_at(t, j);
            lemma_keyed_map_at(s, j);
        }
    }
    assert(keyed_map(t) =~= keyed_map(s).insert(s[i].0, v));
}

/// Appending an entry with a new key adds it to the map.
pub proof fn lemma_keyed_push<V>(s: Seq<(Seq<char>, V)>, k: Seq<char>, v: V)
    requires
        keys_distinct(s),
        forall|j: int| 0 <= j < s.len() ==> s[j].0 != k,
    ensures
        keys_distinct(s.push((k, v))),
        keyed_map(s.push((k, v))) == keyed_map(s).insert(k, v),
{
    let t = s.push((k, v));
    assert forall|p: int, q: int| 0 <= p < t.len() && 0 <= q < t.len() && p != q implies t[p].0 != t[q].0 by {
        if p < s.len() && q < s.len() {
            assert(t[p].0 == s[p].0);
            assert(t[q].0 == s[q].0);
        } else if p < s.len() {
            assert(t[p].0 == s[p].0);
        } else {
            assert(t[q].0 == s[q].0);
        }
    }
    lemma_keyed_map_at(t, s.len() as int);
    assert forall|x: Seq<char>| #[trigger] keyed_map(t).contains_key(x) <==> keyed_map(s).insert(k, v).contains_key(x) by {
        if exists|j: int| 0 <= j < s.len() && s[j].0 == x {
            let j = choose|j: int| 0 <= j < s.len() && s[j].0 == x;
            assert(t[j].0 == x);
        }
        if exists|j: int| 0 <= j < t.len() && t[j].0 == x {
            let j = choose|j: int| 0 <= j < t.len() && t[j].0 == x;
            if j < s.len() {
                assert(s[j].0 == x);
            }
        }
    }
    assert forall|x: Seq<char>| keyed_map(t).contains_key(x) implies #[trigger] keyed_map(t)[x] == keyed_map(s).insert(k, v)[x] by {
        if x != k {
            let j = choose|j: int| 0 <= j < t.len() && t[j].0 == x;
            assert(j < s.len());
            lemma_keyed_map_at(t, j);
            lemma_keyed_map_at(s, j);
        }
    }
    assert(keyed_map(t) =~= keyed_map(s).insert(k, v));
}

} // verus!
