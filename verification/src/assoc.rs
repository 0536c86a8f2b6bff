use vstd::prelude::*;

verus! {

/// The map that an association list stands for; a later pair overrides an
/// earlier pair with the same key.
pub open spec fn assoc<K, V>(s: Seq<(K, V)>) -> Map<K, V>
    decreases s.len(),
{
    if s.len() == 0 {
        Map::empty()
    } else {
        assoc(s.drop_last()).insert(s.last().0, s.last().1)
    }
}

/// No key occurs twice in the association list.
pub open spec fn keys_distinct<K, V>(s: Seq<(K, V)>) -> bool {
    forall|i: int, j: int| 0 <= i < j < s.len() ==> #[trigger] s[i].0 != #[trigger] s[j].0
}

/// A key is in the map exactly when some pair carries it.
pub proof fn lemma_assoc_contains<K, V>(s: Seq<(K, V)>, k: K)
    ensures
        assoc(s).contains_key(k) <==> exists|i: int| 0 <= i < s.len() && #[trigger] s[i].0 == k,
    decreases s.len(),
{
    if s.len() > 0 {
        lemma_assoc_contains(s.drop_last(), k);
        if assoc(s.drop_last()).contains_key(k) {
            let i = choose|i: int| 0 <= i < s.drop_last().len() && #[trigger] s.drop_last()[i].0 == k;
            assert(s[i].0 == k);
        }
        if exists|i: int| 0 <= i < s.len() && #[trigger] s[i].0 == k {
            let i = choose|i: int| 0 <= i < s.len() && #[trigger] s[i].0 == k;
            if i < s.len() - 1 {
                assert(s.drop_last()[i].0 == k);
            }
        }
    }
}

/// With distinct keys, each pair's key maps to that pair's value.
pub proof fn lemma_assoc_lookup<K, V>(s: Seq<(K, V)>, i: int)
    requires
        keys_distinct(s),
        0 <= i < s.len(),
    ensures
        assoc(s).contains_key(s[i].0),
        assoc(s)[s[i].0] == s[i].1,
    decreases s.len(),
{
    if i < s.len() - 1 {
        let d = s.drop_last();
        assert(keys_distinct(d)) by {
            assert forall|a: int, b: int| 0 <= a < b < d.len() implies #[trigger] d[a].0 != #[trigger] d[b].0 by {
                assert(s[a].0 != s[b].0);
            }
        }
        lemma_assoc_lookup(d, i);
        assert(s[i].0 != s[s.len() - 1].0);
    }
}

/// Replacing the value of one pair updates the map at that pair's key.
pub proof fn lemma_assoc_update<K, V>(s: Seq<(K, V)>, i: int, v: V)
    requires
        keys_distinct(s),
        0 <= i < s.len(),
    ensures
        keys_distinct(s.update(i, (s[i].0, v))),
        assoc(s.update(i, (s[i].0, v))) == assoc(s).insert(s[i].0, v),
    decreases s.len(),
{
    let t = s.update(i, (s[i].0, v));
    assert(keys_distinct(t)) by {
        assert forall|a: int, b: int| 0 <= a < b < t.len() implies #[trigger] t[a].0 != #[trigger] t[b].0 by {
            assert(s[a].0 != s[b].0);
        }
    }
    let d = s.drop_last();
    if i == s.len() - 1 {
        assert(t.drop_last() =~= d);
        assert(assoc(t) =~= assoc(s).insert(s[i].0, v));
    } else {
        assert(keys_distinct(d)) by {
            assert forall|a: int, b: int| 0 <= a < b < d.len() implies #[trigger] d[a].0 != #[trigger] d[b].0 by {
                assert(s[a].0 != s[b].0);
            }
        }
        lemma_assoc_update(d, i, v);
        assert(t.drop_last() =~= d.update(i, (d[i].0, v)));
        assert(s[i].0 != s.last().0);
        assert(assoc(t) =~= assoc(s).insert(s[i].0, v));
    }
}

/// Appending a pair with a new key keeps the keys distinct and adds the key.
pub proof fn lemma_assoc_push<K, V>(s: Seq<(K, V)>, k: K, v: V)
    requires
        keys_distinct(s),
        !assoc(s).contains_key(k),
    ensures
        keys_distinct(s.push((k, v))),
        assoc(s.push((k, v))) == assoc(s).insert(k, v),
{
    let t = s.push((k, v));
    assert(t.drop_last() =~= s);
    assert forall|a: int, b: int| 0 <= a < b < t.len() implies #[trigger] t[a].0 != #[trigger] t[b].0 by {
        if b == s.len() {
            lemma_assoc_contains(s, k);
            assert(s[a].0 == t[a].0);
        } else {
            assert(s[a].0 != s[b].0);
        }
    }
}

} // verus!
