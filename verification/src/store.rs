//! A keyed record store: a mapping from a record's identifier to the record,
//! with insert-if-absent, sparse update, lookup, listing and removal.
//!
//! The contracts are stated over the store's view, a `Map` from key to the
//! view of the record stored under it.

use std::collections::HashMap;
use vstd::prelude::*;
use vstd::std_specs::hash::spec_hash_map_iter;
use vstd::std_specs::iter::IteratorSpec;

verus! {

broadcast use vstd::std_specs::hash::group_hash_axioms;

/// Why a store operation was refused.
#[derive(Clone, Copy, Debug, PartialEq, Eq, Structural)]
pub enum StoreError {
    /// An insert named a key that is already present.
    AlreadyExists,
    /// The key is not present.
    NotFound,
}

/// A value that a `RecordStore` can hold: it names its own key, can be
/// copied, and takes sparse changes that leave the key alone.
pub trait Record: View + Sized {
    /// A sparse change to a record.
    type Patch: View;

    /// The key under which a record is stored.
    spec fn key(v: Self::V) -> u32;

    /// The record after a patch.
    spec fn patched(v: Self::V, p: <Self::Patch as View>::V) -> Self::V;

    /// A patch never moves a record to another key.
    proof fn patch_keeps_key(v: Self::V, p: <Self::Patch as View>::V)
        ensures
            Self::key(Self::patched(v, p)) == Self::key(v),
    ;

    /// The record's key.
    fn id(&self) -> (k: u32)
        ensures
            k == Self::key(self@),
    ;

    /// A copy of the record.
    fn duplicate(&self) -> (copy: Self)
        ensures
            copy@ == self@,
    ;

    /// Applies a patch in place.
    fn apply(&mut self, patch: Self::Patch)
        ensures
            final(self)@ == Self::patched(old(self)@, patch@),
    ;
}

/// The record under `key`, if there is one.
pub open spec fn lookup<R: Record>(m: Map<u32, R::V>, key: u32) -> Option<R::V> {
    if m.contains_key(key) {
        Some(m[key])
    } else {
        None
    }
}

/// The records after an attempt to insert `r`: a taken key leaves them as
/// they are.
pub open spec fn inserted<R: Record>(m: Map<u32, R::V>, r: R::V) -> Map<u32, R::V> {
    if m.contains_key(R::key(r)) {
        m
    } else {
        m.insert(R::key(r), r)
    }
}

/// How an attempt to insert `r` ends.
pub open spec fn insert_outcome<R: Record>(m: Map<u32, R::V>, r: R::V) -> Result<(), StoreError> {
    if m.contains_key(R::key(r)) {
        Err(StoreError::AlreadyExists)
    } else {
        Ok(())
    }
}

/// The records after an attempt to patch the record under `key`: an absent
/// key leaves them as they are.
pub open spec fn updated<R: Record>(
    m: Map<u32, R::V>,
    key: u32,
    p: <R::Patch as View>::V,
) -> Map<u32, R::V> {
    if m.contains_key(key) {
        m.insert(key, R::patched(m[key], p))
    } else {
        m
    }
}

/// How an operation on the record under `key` ends, where it needs that
/// record to be there.
pub open spec fn presence<R: Record>(m: Map<u32, R::V>, key: u32) -> Result<(), StoreError> {
    if m.contains_key(key) {
        Ok(())
    } else {
        Err(StoreError::NotFound)
    }
}

/// Every record is stored under its own key.
pub open spec fn keyed<R: Record>(m: Map<u32, R::V>) -> bool {
    forall|k: u32| #[trigger] m.contains_key(k) ==> R::key(m[k]) == k
}

/// Whether `listed` holds the records of `m`, each of them once, in some order.
pub open spec fn is_listing<R: Record>(m: Map<u32, R::V>, listed: Seq<R::V>) -> bool {
    &&& listed.len() == m.dom().len()
    &&& forall|i: int|
        0 <= i < listed.len() ==> m.contains_key(R::key(#[trigger] listed[i])) && m[R::key(
            listed[i],
        )] == listed[i]
    &&& forall|i: int, j: int|
        0 <= i < j < listed.len() ==> R::key(#[trigger] listed[i]) != R::key(#[trigger] listed[j])
    &&& forall|k: u32| #[trigger]
        m.contains_key(k) ==> exists|i: int| 0 <= i < listed.len() && #[trigger] listed[i] == m[k]
}

/// The records of a store, by key.
pub struct RecordStore<R: Record> {
    records: HashMap<u32, R>,
}

impl<R: Record> View for RecordStore<R> {
    type V = Map<u32, R::V>;

    closed spec fn view(&self) -> Map<u32, R::V> {
        self.records@.map_values(|r: R| r@)
    }
}

impl<R: Record> RecordStore<R> {
    #[verifier::type_invariant]
    spec fn well_keyed(self) -> bool {
        forall|k: u32| #[trigger] self.records@.contains_key(k) ==> R::key(self.records@[k]@) == k
    }

    /// An empty store.
    pub fn new() -> (store: Self)
        ensures
            store@ == Map::<u32, R::V>::empty(),
    {
        let store = RecordStore { records: HashMap::new() };
        assert(store@ =~= Map::<u32, R::V>::empty());
        store
    }

    /// The number of records.
    pub fn len(&self) -> (n: usize)
        ensures
            n == self@.dom().len(),
            self@.dom().finite(),
            keyed::<R>(self@),
    {
        proof {
            use_type_invariant(self);
            assert(self@.dom() =~= self.records@.dom());
        }
        self.records.len()
    }

    /// Whether a record is stored under `key`.
    pub fn contains(&self, key: u32) -> (present: bool)
        ensures
            present == self@.contains_key(key),
    {
        self.records.contains_key(&key)
    }

    /// A copy of the record under `key`; `None` where there is none.
    pub fn get(&self, key: u32) -> (found: Option<R>)
        ensures
            keyed::<R>(self@),
            match found {
                Some(r) => lookup::<R>(self@, key) == Some(r@),
                None => lookup::<R>(self@, key) is None,
            },
    {
        proof {
            use_type_invariant(self);
        }
        match self.records.get(&key) {
            Some(r) => Some(r.duplicate()),
            None => None,
        }
    }

    /// Stores `record` under its key, unless the key is taken.
    pub fn insert(&mut self, record: R) -> (outcome: Result<(), StoreError>)
        ensures
            outcome == insert_outcome::<R>(old(self)@, record@),
            final(self)@ == inserted::<R>(old(self)@, record@),
            keyed::<R>(final(self)@),
    {
        proof {
            use_type_invariant(&*self);
        }
        let key = record.id();
        if self.records.contains_key(&key) {
            Err(StoreError::AlreadyExists)
        } else {
            // The map is taken out while it changes and put back after, so
            // that the store is well keyed at every point in between.
            let mut records = HashMap::new();
            std::mem::swap(&mut records, &mut self.records);
            records.insert(key, record);
            self.records = records;
            assert(self@ =~= old(self)@.insert(key, record@));
            Ok(())
        }
    }

    /// A copy of every record, in no particular order.
    pub fn list(&self) -> (out: Vec<R>)
        ensures
            is_listing::<R>(self@, out@.map_values(|r: R| r@)),
            keyed::<R>(self@),
    {
        proof {
            use_type_invariant(self);
        }
        let mut out: Vec<R> = Vec::new();
        let ghost items = spec_hash_map_iter(&self.records).remaining();
        for entry in it: self.records.iter()
            invariant
                it.seq() == items,
                out.len() == it.index(),
                forall|i: int| 0 <= i < out.len() ==> (#[trigger] out[i])@ == (*items[i].1)@,
        {
            out.push(entry.1.duplicate());
        }
        proof {
            let listed = out@.map_values(|r: R| r@);
            let stored = self.records@;
            assert(self@.dom() =~= stored.dom());
            assert(items.no_duplicates());
            assert forall|i: int| 0 <= i < listed.len() implies self@.contains_key(
                R::key(#[trigger] listed[i]),
            ) && self@[R::key(listed[i])] == listed[i] && R::key(listed[i]) == *items[i].0 by {
                assert(stored.contains_key(*items[i].0));
                assert(listed[i] == out[i]@);
            }
            assert forall|i: int, j: int| 0 <= i < j < listed.len() implies R::key(
                #[trigger] listed[i],
            ) != R::key(#[trigger] listed[j]) by {
                if R::key(listed[i]) == R::key(listed[j]) {
                    assert(stored.contains_key(*items[i].0));
                    assert(stored.contains_key(*items[j].0));
                    assert(items[i] == items[j]);
                }
            }
            assert forall|k: u32| #[trigger] self@.contains_key(k) implies exists|i: int|
                0 <= i < listed.len() && #[trigger] listed[i] == self@[k] by {
                assert(stored.contains_key(k));
                assert(items.contains((&k, &stored[k])));
                let i = choose|i: int| 0 <= i < items.len() && items[i] == (&k, &stored[k]);
                assert(listed[i] == self@[k]);
            }
        }
        out
    }

    /// Applies `patch` to the record under `key`, in place.
    pub fn update(&mut self, key: u32, patch: R::Patch) -> (outcome: Result<(), StoreError>)
        ensures
            outcome == presence::<R>(old(self)@, key),
            final(self)@ == updated::<R>(old(self)@, key, patch@),
            keyed::<R>(final(self)@),
    {
        proof {
            use_type_invariant(&*self);
        }
        let mut records = HashMap::new();
        std::mem::swap(&mut records, &mut self.records);
        let outcome = match records.remove(&key) {
            Some(mut record) => {
                proof {
                    R::patch_keeps_key(record@, patch@);
                }
                record.apply(patch);
                records.insert(key, record);
                Ok(())
            },
            None => Err(StoreError::NotFound),
        };
        self.records = records;
        assert(self@ =~= updated::<R>(old(self)@, key, patch@));
        outcome
    }

    /// Takes the record under `key` out of the store.
    pub fn remove(&mut self, key: u32) -> (outcome: Result<R, StoreError>)
        ensures
            match outcome {
                Ok(r) => lookup::<R>(old(self)@, key) == Some(r@),
                Err(e) => e == StoreError::NotFound && lookup::<R>(old(self)@, key) is None,
            },
            final(self)@ == old(self)@.remove(key),
            keyed::<R>(final(self)@),
    {
        proof {
            use_type_invariant(&*self);
        }
        let mut records = HashMap::new();
        std::mem::swap(&mut records, &mut self.records);
        let taken = records.remove(&key);
        self.records = records;
        assert(self@ =~= old(self)@.remove(key));
        match taken {
            Some(record) => Ok(record),
            None => Err(StoreError::NotFound),
        }
    }
}

} // verus!
