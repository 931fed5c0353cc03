//! Lists of pairs keyed by text, read as maps.

use vstd::prelude::*;

verus! {

/// No two pairs share a key.
pub open spec fn keys_unique<V>(s: Seq<(String, V)>) -> bool {
    forall|i: int, j: int| 0 <= i < j < s.len() ==> s[i].0@ != s[j].0@
}

/// The map that a list of pairs describes, a later pair winning over an earlier
/// one for the same key.
pub open spec fn entries_map<V>(s: Seq<(String, V)>) -> Map<Seq<char>, V>
    decreases s.len(),
{
    if s.len() == 0 {
        Map::empty()
    } else {
        entries_map(s.drop_last()).insert(s.last().0@, s.last().1)
    }
}

/// A key is in the map exactly when some pair carries it.
pub(crate) proof fn lemma_entries_map_domain<V>(s: Seq<(String, V)>, k: Seq<char>)
    ensures
        entries_map(s).contains_key(k) <==> exists|i: int| 0 <= i < s.len() && s[i].0@ == k,
    decreases s.len(),
{
    if s.len() > 0 {
        lemma_entries_map_domain(s.drop_last(), k);
        if entries_map(s.drop_last()).contains_key(k) {
            let i = choose|i: int| 0 <= i < s.drop_last().len() && s.drop_last()[i].0@ == k;
            assert(s[i].0@ == k);
        }
        if exists|i: int| 0 <= i < s.len() && s[i].0@ == k {
            let i = choose|i: int| 0 <= i < s.len() && s[i].0@ == k;
            if i < s.len() - 1 {
                assert(s.drop_last()[i].0@ == k);
            }
        }
    }
}

/// With unique keys, each pair's value is the map's value for its key.
pub(crate) proof fn lemma_entries_map_value<V>(s: Seq<(String, V)>, i: int)
    requires
        keys_unique(s),
        0 <= i < s.len(),
    ensures
        entries_map(s).contains_key(s[i].0@),
        entries_map(s)[s[i].0@] == s[i].1,
    decreases s.len(),
{
    if i < s.len() - 1 {
        assert(keys_unique(s.drop_last()));
        lemma_entries_map_value(s.drop_last(), i);
        assert(s.drop_last()[i] == s[i]);
        assert(s[i].0@ != s.last().0@);
    }
}

/// Replacing the pair of a key updates the map at that key.
pub(crate) proof fn lemma_entries_map_update<V>(s: Seq<(String, V)>, i: int, p: (String, V))
    requires
        keys_unique(s),
        0 <= i < s.len(),
        s[i].0@ == p.0@,
    ensures
        keys_unique(s.update(i, p)),
        entries_map(s.update(i, p)) == entries_map(s).insert(p.0@, p.1),
{
    let s2 = s.update(i, p);
    assert(keys_unique(s2));
    let m2 = entries_map(s2);
    let m1 = entries_map(s).insert(p.0@, p.1);
    assert forall|k: Seq<char>| #[trigger] m2.contains_key(k) <==> m1.contains_key(k) by {
        lemma_entries_map_domain(s2, k);
        lemma_entries_map_domain(s, k);
        if exists|j: int| 0 <= j < s.len() && s[j].0@ == k {
            let j = choose|j: int| 0 <= j < s.len() && s[j].0@ == k;
            assert(s2[j].0@ == k);
        }
        if exists|j: int| 0 <= j < s2.len() && s2[j].0@ == k {
            let j = choose|j: int| 0 <= j < s2.len() && s2[j].0@ == k;
            assert(s[j].0@ == k);
        }
    }
    assert forall|k: Seq<char>| m2.contains_key(k) implies #[trigger] m2[k] == m1[k] by {
        lemma_entries_map_domain(s2, k);
        let j = choose|j: int| 0 <= j < s2.len() && s2[j].0@ == k;
        lemma_entries_map_value(s2, j);
        if j != i {
            lemma_entries_map_value(s, j);
        }
    }
    assert(m2 =~= m1);
}

/// Appending a pair with a new key inserts it into the map.
pub(crate) proof fn lemma_entries_map_push<V>(s: Seq<(String, V)>, p: (String, V))
    requires
        keys_unique(s),
        !entries_map(s).contains_key(p.0@),
    ensures
        keys_unique(s.push(p)),
        entries_map(s.push(p)) == entries_map(s).insert(p.0@, p.1),
{
    assert(s.push(p).drop_last() =~= s);
    assert forall|j: int| 0 <= j < s.len() implies s[j].0@ != p.0@ by {
        lemma_entries_map_value(s, j);
    }
}

/// Removing a pair removes its key from the map.
pub(crate) proof fn lemma_entries_map_remove<V>(s: Seq<(String, V)>, i: int)
    requires
        keys_unique(s),
        0 <= i < s.len(),
    ensures
        keys_unique(s.remove(i)),
        entries_map(s.remove(i)) == entries_map(s).remove(s[i].0@),
{
    let s2 = s.remove(i);
    let k0 = s[i].0@;
    assert forall|a: int, b: int| 0 <= a < b < s2.len() implies s2[a].0@ != s2[b].0@ by {
        let a1 = if a < i { a } else { a + 1 };
        let b1 = if b < i { b } else { b + 1 };
        assert(s2[a] == s[a1] && s2[b] == s[b1]);
    }
    let m2 = entries_map(s2);
    let m1 = entries_map(s).remove(k0);
    assert forall|k: Seq<char>| #[trigger] m2.contains_key(k) <==> m1.contains_key(k) by {
        lemma_entries_map_domain(s2, k);
        lemma_entries_map_domain(s, k);
        if exists|j: int| 0 <= j < s2.len() && s2[j].0@ == k {
            let j = choose|j: int| 0 <= j < s2.len() && s2[j].0@ == k;
            let j1 = if j < i { j } else { j + 1 };
            assert(s[j1] == s2[j]);
            assert(j1 != i);
        }
        if m1.contains_key(k) {
            let j = choose|j: int| 0 <= j < s.len() && s[j].0@ == k;
            assert(j != i);
            let j2 = if j < i { j } else { j - 1 };
            assert(s2[j2] == s[j]);
        }
    }
    assert forall|k: Seq<char>| m2.contains_key(k) implies #[trigger] m2[k] == m1[k] by {
        lemma_entries_map_domain(s2, k);
        let j = choose|j: int| 0 <= j < s2.len() && s2[j].0@ == k;
        lemma_entries_map_value(s2, j);
        let j1 = if j < i { j } else { j + 1 };
        assert(s[j1] == s2[j]);
        lemma_entries_map_value(s, j1);
    }
    assert(m2 =~= m1);
}

} // verus!
