//! What holds of every record store, stated over the store's model: the
//! `Map` from key to record that the contracts of `RecordStore` speak of.

use crate::store::{
    insert_outcome, inserted, is_listing, keyed, lookup, presence, updated, Record, StoreError,
};
use vstd::prelude::*;

verus! {

/// The records after an attempt to insert each of `rs`, in order.
pub open spec fn inserted_all<R: Record>(m: Map<u32, R::V>, rs: Seq<R::V>) -> Map<u32, R::V>
    decreases rs.len(),
{
    if rs.len() == 0 {
        m
    } else {
        inserted::<R>(inserted_all::<R>(m, rs.drop_last()), rs.last())
    }
}

/// Inserting, patching and removing keep every record under its own key.
pub proof fn lemma_keyed_is_kept<R: Record>(
    m: Map<u32, R::V>,
    r: R::V,
    key: u32,
    p: <R::Patch as View>::V,
)
    requires
        keyed::<R>(m),
    ensures
        keyed::<R>(inserted::<R>(m, r)),
        keyed::<R>(updated::<R>(m, key, p)),
        keyed::<R>(m.remove(key)),
{
    if m.contains_key(key) {
        R::patch_keeps_key(m[key], p);
    }
}

/// An insert under a free key succeeds and adds exactly one record, which is
/// then found under its key; every other key is as before.
pub proof fn lemma_insert_adds_one<R: Record>(m: Map<u32, R::V>, r: R::V)
    requires
        m.dom().finite(),
        !m.contains_key(R::key(r)),
    ensures
        insert_outcome::<R>(m, r) == Ok::<(), StoreError>(()),
        inserted::<R>(m, r).dom().len() == m.dom().len() + 1,
        lookup::<R>(inserted::<R>(m, r), R::key(r)) == Some(r),
        forall|k: u32| k != R::key(r) ==> lookup::<R>(inserted::<R>(m, r), k) == lookup::<R>(m, k),
{
}

/// An insert under a key that an earlier insert named is refused with
/// `AlreadyExists`, and the store stays as it was.
pub proof fn lemma_second_insert_is_refused<R: Record>(m: Map<u32, R::V>, first: R::V, second: R::V)
    requires
        R::key(first) == R::key(second),
    ensures
        insert_outcome::<R>(inserted::<R>(m, first), second) == Err::<(), StoreError>(
            StoreError::AlreadyExists,
        ),
        inserted::<R>(inserted::<R>(m, first), second) == inserted::<R>(m, first),
{
}

/// After any run of inserts, the key of each of them is present.
pub proof fn lemma_inserted_keys_are_present<R: Record>(m: Map<u32, R::V>, rs: Seq<R::V>, i: int)
    requires
        0 <= i < rs.len(),
    ensures
        inserted_all::<R>(m, rs).contains_key(R::key(rs[i])),
    decreases rs.len(),
{
    if i < rs.len() - 1 {
        lemma_inserted_keys_are_present::<R>(m, rs.drop_last(), i);
    }
}

/// After any run of inserts, one more insert under a key that the run named
/// is refused with `AlreadyExists`, and the store stays as it was.
pub proof fn lemma_insert_again_is_refused<R: Record>(
    m: Map<u32, R::V>,
    rs: Seq<R::V>,
    i: int,
    again: R::V,
)
    requires
        0 <= i < rs.len(),
        R::key(rs[i]) == R::key(again),
    ensures
        insert_outcome::<R>(inserted_all::<R>(m, rs), again) == Err::<(), StoreError>(
            StoreError::AlreadyExists,
        ),
        inserted::<R>(inserted_all::<R>(m, rs), again) == inserted_all::<R>(m, rs),
{
    lemma_inserted_keys_are_present::<R>(m, rs, i);
}

/// An update of a present key succeeds; a lookup then finds the patched
/// record, and every other key is as before.
pub proof fn lemma_update_then_lookup<R: Record>(
    m: Map<u32, R::V>,
    key: u32,
    p: <R::Patch as View>::V,
)
    requires
        m.contains_key(key),
    ensures
        presence::<R>(m, key) == Ok::<(), StoreError>(()),
        lookup::<R>(updated::<R>(m, key, p), key) == Some(R::patched(m[key], p)),
        updated::<R>(m, key, p).dom() == m.dom(),
        forall|k: u32| k != key ==> lookup::<R>(updated::<R>(m, key, p), k) == lookup::<R>(m, k),
{
    assert(updated::<R>(m, key, p).dom() =~= m.dom());
}

/// Under an absent key a lookup finds nothing, and an update and a removal
/// are refused with `NotFound` and leave the store as it was.
pub proof fn lemma_absent_key<R: Record>(m: Map<u32, R::V>, key: u32, p: <R::Patch as View>::V)
    requires
        !m.contains_key(key),
    ensures
        lookup::<R>(m, key) is None,
        presence::<R>(m, key) == Err::<(), StoreError>(StoreError::NotFound),
        updated::<R>(m, key, p) == m,
        m.remove(key) == m,
{
    assert(m.remove(key) =~= m);
}

/// A removal of a present key takes exactly that record away, and the key is
/// absent from then on.
pub proof fn lemma_remove_takes_one<R: Record>(m: Map<u32, R::V>, key: u32)
    requires
        m.dom().finite(),
        m.contains_key(key),
    ensures
        m.remove(key).dom().len() == m.dom().len() - 1,
        lookup::<R>(m.remove(key), key) is None,
        forall|k: u32| k != key ==> lookup::<R>(m.remove(key), k) == lookup::<R>(m, k),
{
}

/// The keys of a listing are exactly the keys of the store, and each listed
/// record is the one that a lookup of its key finds.
pub proof fn lemma_listing_is_exact<R: Record>(m: Map<u32, R::V>, listed: Seq<R::V>)
    requires
        keyed::<R>(m),
        is_listing::<R>(m, listed),
    ensures
        listed.map_values(|v: R::V| R::key(v)).to_set() == m.dom(),
        listed.map_values(|v: R::V| R::key(v)).no_duplicates(),
        forall|i: int|
            0 <= i < listed.len() ==> lookup::<R>(m, R::key(#[trigger] listed[i])) == Some(
                listed[i],
            ),
{
    let keys = listed.map_values(|v: R::V| R::key(v));
    assert forall|k: u32| keys.to_set().contains(k) <==> m.dom().contains(k) by {
        if keys.to_set().contains(k) {
            let i = choose|i: int| 0 <= i < keys.len() && keys[i] == k;
            assert(m.contains_key(R::key(listed[i])));
        }
        if m.contains_key(k) {
            let i = choose|i: int| 0 <= i < listed.len() && listed[i] == m[k];
            assert(keys[i] == k);
        }
    }
    assert(keys.to_set() =~= m.dom());
    assert forall|i: int, j: int| 0 <= i < keys.len() && 0 <= j < keys.len() && i != j implies keys[i]
        != keys[j] by {
        assert(keys[i] == R::key(listed[i]));
        assert(keys[j] == R::key(listed[j]));
        if i < j {
            assert(R::key(listed[i]) != R::key(listed[j]));
        } else {
            assert(R::key(listed[j]) != R::key(listed[i]));
        }
    }
}

} // verus!
