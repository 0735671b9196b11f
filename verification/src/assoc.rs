//! Association sequences as mathematical maps.
//!
//! The store keeps each keyed collection (users by identity, votes by
//! voter) as a sequence of key/value pairs whose keys are identity byte
//! strings. [`assoc_map`] reads such a sequence as a `Map`, with later
//! entries shadowing earlier ones; the lemmas here relate pushing and
//! in-place updates on the sequence to `Map::insert`.

use vstd::prelude::*;

verus! {

/// The map described by an association sequence: later pairs shadow
/// earlier ones.
pub open spec fn assoc_map<V>(s: Seq<(Seq<u8>, V)>) -> Map<Seq<u8>, V>
    decreases s.len(),
{
    if s.len() == 0 {
        Map::empty()
    } else {
        assoc_map(s.drop_last()).insert(s.last().0, s.last().1)
    }
}

/// No two pairs of the sequence share a key.
pub open spec fn unique_keys<V>(s: Seq<(Seq<u8>, V)>) -> bool {
    forall|i: int, j: int| 0 <= i < j < s.len() ==> s[i].0 != s[j].0
}

/// Appending a pair inserts its key into the map.
pub proof fn lemma_assoc_map_push<V>(s: Seq<(Seq<u8>, V)>, k: Seq<u8>, v: V)
    ensures
        assoc_map(s.push((k, v))) == assoc_map(s).insert(k, v),
{
    assert(s.push((k, v)).drop_last() =~= s);
    assert(s.push((k, v)).last() == (k, v));
}

/// With unique keys, overwriting the value at one pair is a map insert of
/// that pair's key.
pub proof fn lemma_assoc_map_update<V>(s: Seq<(Seq<u8>, V)>, i: int, v: V)
    requires
        unique_keys(s),
        0 <= i < s.len(),
    ensures
        assoc_map(s.update(i, (s[i].0, v))) == assoc_map(s).insert(s[i].0, v),
    decreases s.len(),
{
    let t = s.update(i, (s[i].0, v));
    if i == s.len() - 1 {
        assert(t.drop_last() =~= s.drop_last());
        assert(t.last() == (s[i].0, v));
        assert(assoc_map(s.drop_last()).insert(s[i].0, s[i].1).insert(s[i].0, v)
            =~= assoc_map(s.drop_last()).insert(s[i].0, v));
    } else {
        assert(unique_keys(s.drop_last()));
        assert(s.drop_last()[i] == s[i]);
        lemma_assoc_map_update(s.drop_last(), i, v);
        assert(t.drop_last() =~= s.drop_last().update(i, (s[i].0, v)));
        assert(t.last() == s.last());
        assert(s[i].0 != s.last().0);
        assert(assoc_map(s.drop_last()).insert(s[i].0, v).insert(s.last().0, s.last().1)
            =~= assoc_map(s.drop_last()).insert(s.last().0, s.last().1).insert(s[i].0, v));
    }
}

} // verus!
