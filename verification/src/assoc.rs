//! String-keyed association vectors.
//!
//! Both the ledger (address to account entry) and each account's datastore
//! (key to bytes) are stored as vectors of key/value pairs with pairwise
//! distinct keys.  Their mathematical model is the finite map built by
//! [`kv_map`]; the lemmas here relate vector edits to map edits.

use vstd::prelude::*;

verus! {

/// One key/value pair of an association vector.
#[derive(Debug)]
pub struct KV<T> {
    pub key: String,
    pub val: T,
}

/// No two pairs of `s` share a key.
pub open spec fn kv_unique<T>(s: Seq<KV<T>>) -> bool {
    forall|i: int, j: int| 0 <= i < j < s.len() ==> s[i].key@ != s[j].key@
}

/// The finite map an association vector denotes: later pairs win, which is
/// irrelevant once keys are unique.
pub open spec fn kv_map<T: View>(s: Seq<KV<T>>) -> Map<Seq<char>, T::V>
    decreases s.len(),
{
    if s.len() == 0 {
        Map::empty()
    } else {
        kv_map(s.drop_last()).insert(s.last().key@, s.last().val@)
    }
}

/// A key is in the map exactly when some pair of the vector carries it.
pub proof fn lemma_kv_map_dom<T: View>(s: Seq<KV<T>>)
    ensures
        forall|k: Seq<char>|
            #[trigger] kv_map(s).contains_key(k) <==> exists|i: int|
                0 <= i < s.len() && s[i].key@ == k,
        kv_map(s).dom().finite(),
    decreases s.len(),
{
    if s.len() > 0 {
        lemma_kv_map_dom(s.drop_last());
        assert forall|k: Seq<char>| #[trigger] kv_map(s).contains_key(k) implies exists|i: int|
            0 <= i < s.len() && s[i].key@ == k by {
            if s.last().key@ == k {
                assert(s[s.len() - 1].key@ == k);
            } else {
                let i = choose|i: int| 0 <= i < s.drop_last().len() && s.drop_last()[i].key@ == k;
                assert(s[i].key@ == k);
            }
        }
        assert forall|k: Seq<char>| (exists|i: int| 0 <= i < s.len() && s[i].key@ == k)
            implies #[trigger] kv_map(s).contains_key(k) by {
            let i = choose|i: int| 0 <= i < s.len() && s[i].key@ == k;
            if i < s.len() - 1 {
                assert(s.drop_last()[i].key@ == k);
            }
        }
    }
}

/// With unique keys, the map sends each stored key to its stored value.
pub proof fn lemma_kv_map_index<T: View>(s: Seq<KV<T>>, i: int)
    requires
        kv_unique(s),
        0 <= i < s.len(),
    ensures
        kv_map(s).contains_key(s[i].key@),
        kv_map(s)[s[i].key@] == s[i].val@,
    decreases s.len(),
{
    lemma_kv_map_dom(s);
    if i < s.len() - 1 {
        assert(kv_unique(s.drop_last()));
        lemma_kv_map_index(s.drop_last(), i);
        assert(s.drop_last()[i] == s[i]);
        assert(s.last().key@ != s[i].key@);
    }
}

/// Appending a pair with a fresh key inserts it into the map.
pub proof fn lemma_kv_map_push<T: View>(s: Seq<KV<T>>, p: KV<T>)
    ensures
        kv_map(s.push(p)) == kv_map(s).insert(p.key@, p.val@),
{
    assert(s.push(p).drop_last() =~= s);
    assert(s.push(p).last() == p);
}

/// Replacing the value at position `i` (same key) updates the map at that key.
pub proof fn lemma_kv_map_update<T: View>(s: Seq<KV<T>>, i: int, p: KV<T>)
    requires
        kv_unique(s),
        0 <= i < s.len(),
        p.key@ == s[i].key@,
    ensures
        kv_map(s.update(i, p)) =~= kv_map(s).insert(p.key@, p.val@),
        kv_unique(s.update(i, p)),
    decreases s.len(),
{
    let t = s.update(i, p);
    assert(kv_unique(t));
    if i == s.len() - 1 {
        assert(t.drop_last() =~= s.drop_last());
        assert(t.last() == p);
    } else {
        assert(kv_unique(s.drop_last()));
        assert(t.drop_last() =~= s.drop_last().update(i, p));
        lemma_kv_map_update(s.drop_last(), i, p);
        assert(t.last() == s.last());
        assert(s.last().key@ != p.key@);
        assert(kv_map(t) =~= kv_map(s).insert(p.key@, p.val@));
    }
}

/// Finds the position of `key` in `v`, or reports that no pair carries it.
pub fn kv_find<T: View>(v: &Vec<KV<T>>, key: &String) -> (r: Option<usize>)
    ensures
        match r {
            Some(i) => i < v@.len() && v@[i as int].key@ == key@,
            None => forall|i: int| 0 <= i < v@.len() ==> v@[i].key@ != key@,
        },
{
    let n = v.len();
    let mut i: usize = 0;
    while i < n
        invariant
            n == v@.len(),
            0 <= i <= n,
            forall|j: int| 0 <= j < i ==> v@[j].key@ != key@,
        decreases n - i,
    {
        if v[i].key == *key {
            return Some(i);
        }
        i = i + 1;
    }
    None
}

} // verus!
