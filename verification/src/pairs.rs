//! Lists of name/value pairs and the map that inserting them in order builds.

use vstd::prelude::*;

verus! {

/// The map built by inserting the pairs of `p` one after the other, so that
/// a later pair replaces an earlier one with the same key.
pub open spec fn pairs_to_map<K, V>(p: Seq<(K, V)>) -> Map<K, V>
    decreases p.len(),
{
    if p.len() == 0 {
        Map::empty()
    } else {
        pairs_to_map(p.drop_last()).insert(p.last().0, p.last().1)
    }
}

/// No key occurs twice in `p`.
pub open spec fn unique_keys<K, V>(p: Seq<(K, V)>) -> bool {
    forall|i: int, j: int| 0 <= i < p.len() && 0 <= j < p.len() && i != j ==> p[i].0 != p[j].0
}

/// The view of a list of string pairs.
pub open spec fn string_pairs(v: Seq<(String, String)>) -> Seq<(Seq<char>, Seq<char>)> {
    v.map_values(|p: (String, String)| (p.0@, p.1@))
}

/// A key is in the map exactly when some pair carries it.
pub proof fn lemma_pairs_to_map_dom<K, V>(p: Seq<(K, V)>, k: K)
    ensures
        pairs_to_map(p).dom().contains(k) <==> exists|i: int| 0 <= i < p.len() && p[i].0 == k,
    decreases p.len(),
{
    if p.len() > 0 {
        lemma_pairs_to_map_dom(p.drop_last(), k);
        if pairs_to_map(p.drop_last()).dom().contains(k) {
            let i = choose|i: int| 0 <= i < p.drop_last().len() && p.drop_last()[i].0 == k;
            assert(p[i].0 == k);
        }
        if exists|i: int| 0 <= i < p.len() && p[i].0 == k {
            let i = choose|i: int| 0 <= i < p.len() && p[i].0 == k;
            if i < p.len() - 1 {
                assert(p.drop_last()[i].0 == k);
            }
        }
    }
}

/// Where keys are unique, each pair's value is what the map holds for its key.
pub proof fn lemma_unique_pairs_to_map<K, V>(p: Seq<(K, V)>, i: int)
    requires
        unique_keys(p),
        0 <= i < p.len(),
    ensures
        pairs_to_map(p).dom().contains(p[i].0),
        pairs_to_map(p)[p[i].0] == p[i].1,
    decreases p.len(),
{
    if i < p.len() - 1 {
        let q = p.drop_last();
        assert(unique_keys(q));
        lemma_unique_pairs_to_map(q, i);
        assert(q[i] == p[i]);
        assert(p.last().0 != p[i].0);
    }
}

/// Replacing the value of a unique key is inserting it into the map.
pub proof fn lemma_update_is_insert<K, V>(p: Seq<(K, V)>, j: int, v: V)
    requires
        unique_keys(p),
        0 <= j < p.len(),
    ensures
        unique_keys(p.update(j, (p[j].0, v))),
        pairs_to_map(p.update(j, (p[j].0, v))) == pairs_to_map(p).insert(p[j].0, v),
{
    let q = p.update(j, (p[j].0, v));
    assert(unique_keys(q));
    let m1 = pairs_to_map(q);
    let m2 = pairs_to_map(p).insert(p[j].0, v);
    assert forall|k: K| m1.dom().contains(k) <==> m2.dom().contains(k) by {
        lemma_pairs_to_map_dom(q, k);
        lemma_pairs_to_map_dom(p, k);
        if exists|i: int| 0 <= i < p.len() && p[i].0 == k {
            let i = choose|i: int| 0 <= i < p.len() && p[i].0 == k;
            assert(q[i].0 == k);
        }
        if exists|i: int| 0 <= i < q.len() && q[i].0 == k {
            let i = choose|i: int| 0 <= i < q.len() && q[i].0 == k;
            assert(p[i].0 == k);
        }
    }
    assert forall|k: K| m1.dom().contains(k) implies m1[k] == m2[k] by {
        lemma_pairs_to_map_dom(q, k);
        let i = choose|i: int| 0 <= i < q.len() && q[i].0 == k;
        lemma_unique_pairs_to_map(q, i);
        if i != j {
            lemma_unique_pairs_to_map(p, i);
        }
    }
    assert(m1 =~= m2);
}

/// Appending a pair with a fresh key is inserting it into the map.
pub proof fn lemma_push_fresh<K, V>(p: Seq<(K, V)>, k: K, v: V)
    requires
        unique_keys(p),
        forall|i: int| 0 <= i < p.len() ==> p[i].0 != k,
    ensures
        unique_keys(p.push((k, v))),
        pairs_to_map(p.push((k, v))) == pairs_to_map(p).insert(k, v),
{
    assert(p.push((k, v)).drop_last() =~= p);
}

/// Collapses a list of string pairs so that each key occurs once, holding the
/// value of its last occurrence: the map of the result is the map that
/// inserting the pairs in order builds.
pub fn last_value_wins(pairs: Vec<(String, String)>) -> (r: Vec<(String, String)>)
    ensures
        unique_keys(string_pairs(r@)),
        pairs_to_map(string_pairs(r@)) == pairs_to_map(string_pairs(pairs@)),
{
    let mut out: Vec<(String, String)> = Vec::new();
    let n = pairs.len();
    let mut i: usize = 0;
    assert(string_pairs(pairs@).take(0) =~= Seq::<(Seq<char>, Seq<char>)>::empty());
    assert(string_pairs(out@) =~= Seq::<(Seq<char>, Seq<char>)>::empty());
    while i < n
        invariant
            n == pairs@.len(),
            0 <= i <= n,
            unique_keys(string_pairs(out@)),
            pairs_to_map(string_pairs(out@)) == pairs_to_map(string_pairs(pairs@).take(i as int)),
        decreases n - i,
    {
        let key = pairs[i].0.clone();
        let value = pairs[i].1.clone();
        let ghost before = string_pairs(out@);
        let mut j: usize = 0;
        let mut found = false;
        while j < out.len()
            invariant_except_break
                !found,
            invariant
                0 <= j <= out@.len(),
                before == string_pairs(out@),
                forall|k: int| 0 <= k < j ==> before[k].0 != key@,
            ensures
                found ==> j < before.len() && before[j as int].0 == key@,
                !found ==> forall|k: int| 0 <= k < before.len() ==> before[k].0 != key@,
            decreases out@.len() - j,
        {
            if out[j].0 == key {
                found = true;
                break;
            }
            j = j + 1;
        }
        assert(string_pairs(pairs@).take(i + 1).drop_last() =~= string_pairs(pairs@).take(i as int));
        assert(string_pairs(pairs@).take(i + 1).last() == (key@, value@));
        if found {
            proof {
                lemma_update_is_insert(before, j as int, value@);
            }
            let k2 = out[j].0.clone();
            out.set(j, (k2, value));
            assert(string_pairs(out@) =~= before.update(j as int, (before[j as int].0, value@)));
        } else {
            proof {
                lemma_push_fresh(before, key@, value@);
            }
            out.push((key, value));
            assert(string_pairs(out@) =~= before.push((key@, value@)));
        }
        i = i + 1;
    }
    assert(string_pairs(pairs@).take(n as int) =~= string_pairs(pairs@));
    out
}

} // verus!
