//! The entity store's canonical order: entities listed by ascending
//! identifier, which is the order every position-dependent computation uses.

use vstd::prelude::*;
use std::collections::BTreeMap;
use vstd::std_specs::iter::IteratorSpec;
use vstd::std_specs::btree::spec_btree_map_iter;
use vstd::std_specs::cmp::OrdSpec;
use crate::kernel::world::EntityData;

verus! {

/// The keys are strictly increasing.
pub open spec fn ascending(keys: Seq<u128>) -> bool {
    forall|i: int, j: int| 0 <= i < j < keys.len() ==> keys[i] < keys[j]
}

/// The identifiers of a listing, in listing order.
pub open spec fn keys_of(entries: Seq<(u128, EntityData)>) -> Seq<u128> {
    entries.map_values(|e: (u128, EntityData)| e.0)
}

/// `entries` lists exactly the pairs of `m`, by ascending identifier.
pub open spec fn lists(entries: Seq<(u128, EntityData)>, m: Map<u128, EntityData>) -> bool {
    &&& ascending(keys_of(entries))
    &&& forall|i: int|
        0 <= i < entries.len() ==> m.contains_key(#[trigger] entries[i].0) && m[entries[i].0]
            == entries[i].1
    &&& forall|k: u128|
        m.contains_key(k) ==> exists|i: int| 0 <= i < entries.len() && #[trigger] entries[i].0 == k
}

/// The canonical listing of an entity map: its pairs by ascending identifier.
/// A finite map has exactly one such listing (`lemma_listing_unique`).
pub open spec fn ordered_entries(m: Map<u128, EntityData>) -> Seq<(u128, EntityData)> {
    choose|entries: Seq<(u128, EntityData)>| lists(entries, m)
}

/// Two ascending key sequences with the same elements are the same sequence.
pub proof fn lemma_ascending_unique(a: Seq<u128>, b: Seq<u128>)
    requires
        ascending(a),
        ascending(b),
        forall|k: u128| a.contains(k) <==> b.contains(k),
    ensures
        a == b,
    decreases a.len(),
{
    if a.len() == 0 {
        if b.len() > 0 {
            assert(b.contains(b[0]));
            assert(a.contains(b[0]));
        }
        assert(a =~= b);
    } else {
        let x = a.last();
        assert(a.contains(x)) by {
            assert(a[a.len() - 1] == x);
        }
        assert(b.contains(x));
        let y = b.last();
        assert(b.contains(y)) by {
            assert(b[b.len() - 1] == y);
        }
        assert(a.contains(y));
        let jx = choose|j: int| 0 <= j < b.len() && b[j] == x;
        let iy = choose|i: int| 0 <= i < a.len() && a[i] == y;
        assert(x <= y);
        assert(y <= x);
        let a0 = a.drop_last();
        let b0 = b.drop_last();
        assert forall|k: u128| a0.contains(k) <==> b0.contains(k) by {
            if a0.contains(k) {
                let i = choose|i: int| 0 <= i < a0.len() && a0[i] == k;
                assert(a[i] == k);
                assert(k < x);
                assert(a.contains(k));
                let j = choose|j: int| 0 <= j < b.len() && b[j] == k;
                assert(j < b.len() - 1);
                assert(b0[j] == k);
            }
            if b0.contains(k) {
                let j = choose|j: int| 0 <= j < b0.len() && b0[j] == k;
                assert(b[j] == k);
                assert(k < y);
                assert(b.contains(k));
                let i = choose|i: int| 0 <= i < a.len() && a[i] == k;
                assert(i < a.len() - 1);
                assert(a0[i] == k);
            }
        }
        lemma_ascending_unique(a0, b0);
        assert(a =~= a0.push(x));
        assert(b =~= b0.push(y));
    }
}

/// A map has at most one canonical listing.
pub proof fn lemma_listing_unique(
    a: Seq<(u128, EntityData)>,
    b: Seq<(u128, EntityData)>,
    m: Map<u128, EntityData>,
)
    requires
        lists(a, m),
        lists(b, m),
    ensures
        a == b,
{
    let ka = keys_of(a);
    let kb = keys_of(b);
    assert forall|k: u128| ka.contains(k) <==> kb.contains(k) by {
        if ka.contains(k) {
            let i = choose|i: int| 0 <= i < ka.len() && ka[i] == k;
            assert(a[i].0 == k);
            assert(m.contains_key(k));
            let j = choose|j: int| 0 <= j < b.len() && b[j].0 == k;
            assert(kb[j] == k);
        }
        if kb.contains(k) {
            let j = choose|j: int| 0 <= j < kb.len() && kb[j] == k;
            assert(b[j].0 == k);
            assert(m.contains_key(k));
            let i = choose|i: int| 0 <= i < a.len() && a[i].0 == k;
            assert(ka[i] == k);
        }
    }
    lemma_ascending_unique(ka, kb);
    assert(a.len() == b.len());
    assert forall|i: int| 0 <= i < a.len() implies a[i] == b[i] by {
        assert(ka[i] == kb[i]);
        assert(a[i].0 == b[i].0);
        assert(m[a[i].0] == a[i].1);
        assert(m[b[i].0] == b[i].1);
    }
    assert(a =~= b);
}

/// A listing of a map is its canonical listing.
pub proof fn lemma_listing_is_canonical(
    entries: Seq<(u128, EntityData)>,
    m: Map<u128, EntityData>,
)
    requires
        lists(entries, m),
    ensures
        entries == ordered_entries(m),
{
    lemma_listing_unique(entries, ordered_entries(m), m);
}

/// Copies the pairs of the map out in ascending identifier order.
pub fn entries_in_order(m: &BTreeMap<u128, EntityData>) -> (v: Vec<(u128, EntityData)>)
    ensures
        lists(v@, m@),
        v@ == ordered_entries(m@),
        v@.len() == m@.len(),
{
    let mut v: Vec<(u128, EntityData)> = Vec::new();
    for kv in it: m.iter()
        invariant
            v@.len() == it.index(),
            it.seq() == spec_btree_map_iter(m).remaining(),
            forall|j: int|
                0 <= j < v@.len() ==> v@[j].0 == *it.seq()[j].0 && v@[j].1 == *it.seq()[j].1,
    {
        v.push((*kv.0, *kv.1));
    }
    proof {
        let s = spec_btree_map_iter(m).remaining();
        let ks = s.map_values(|kv: (&u128, &EntityData)| *kv.0);
        vstd::std_specs::btree::axiom_increasing_seq_meaning(ks);
        let vk = keys_of(v@);
        assert forall|i: int, j: int| 0 <= i < j < vk.len() implies vk[i] < vk[j] by {
            assert(ks[i].cmp_spec(&ks[j]) is Less);
        }
        assert forall|k: u128| m@.contains_key(k) implies exists|i: int|
            0 <= i < v@.len() && #[trigger] v@[i].0 == k by {
            assert(s.contains((&k, &m@[k])));
            let i = choose|i: int| 0 <= i < s.len() && s[i] == (&k, &m@[k]);
            assert(v@[i].0 == k);
        }
        lemma_listing_is_canonical(v@, m@);
    }
    v
}

} // verus!
