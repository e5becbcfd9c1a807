//! A link store backed by the `doublets` crate's single-memory store.

use crate::storage::{
    get_or_create_post, has_pair, lists_doublets, store_wf, valid_ref, LinkStorage, LinksModel,
    StorageError,
};
use doublets::mem::Global;
use doublets::unit::{LinkPart, Store};
use doublets::{Doublets, DoubletsExt};
use vstd::prelude::*;

verus! {

/// The `doublets` single-memory store over memory from the global allocator.
type UnitStore = Store<usize, Global<LinkPart<usize>>>;

/// A `doublets` store kept in memory from the global allocator.
#[verifier::external_body]
pub struct DoubletsStore {
    inner: UnitStore,
}

/// The doublets that a `doublets` store holds, by id.
pub uninterp spec fn stored_doublets(s: DoubletsStore) -> Map<usize, (usize, usize)>;

/// Relies on `doublets::unit::Store::new` over fresh `Global` memory: a new
/// store holds no doublet.
#[verifier::external_body]
fn open_store() -> (r: Result<DoubletsStore, StorageError>)
    ensures
        r is Ok ==> stored_doublets(r->Ok_0) == LinksModel::empty(),
{
    match UnitStore::new(Global::new()) {
        Ok(inner) => Ok(DoubletsStore { inner }),
        Err(doublets::Error::LimitReached(n)) => Err(StorageError::LimitReached(n)),
        Err(doublets::Error::AllocFailed(_)) => Err(StorageError::AllocFailed),
        Err(_) => Err(StorageError::Other),
    }
}

/// Relies on `Doublets::count`: the number of stored doublets.
#[verifier::external_body]
fn store_count(s: &DoubletsStore) -> (r: usize)
    ensures
        r == stored_doublets(*s).len(),
{
    s.inner.count()
}

/// Relies on `DoubletsExt::iter`, which visits the stored doublets once each,
/// from id 1 upwards.
#[verifier::external_body]
fn store_doublets(s: &DoubletsStore) -> (r: Vec<(usize, usize, usize)>)
    ensures
        lists_doublets(stored_doublets(*s), r@),
{
    s.inner.iter().map(|l| (l.index, l.source, l.target)).collect()
}

/// Relies on `Doublets::get_or_create`: it returns the id of a doublet joining
/// `source` to `target` when the source index finds one, and otherwise creates
/// a doublet under an id in `1..=MAX_REFERENCE` that no doublet holds; it
/// fails, changing nothing, only where that creation fails. Zero and the
/// marker values above `MAX_REFERENCE` act as wildcards or are left out of the
/// index, so they are not admitted.
#[verifier::external_body]
fn store_get_or_create(s: &mut DoubletsStore, source: usize, target: usize) -> (r: Result<
    usize,
    StorageError,
>)
    requires
        valid_ref(source),
        valid_ref(target),
    ensures
        match r {
            Ok(id) => get_or_create_post(
                stored_doublets(*old(s)),
                source,
                target,
                id,
                stored_doublets(*final(s)),
            ),
            Err(_) => !has_pair(stored_doublets(*old(s)), source, target) && stored_doublets(
                *final(s),
            ) == stored_doublets(*old(s)),
        },
{
    match s.inner.get_or_create(source, target) {
        Ok(id) => Ok(id),
        Err(doublets::Error::LimitReached(n)) => Err(StorageError::LimitReached(n)),
        Err(doublets::Error::AllocFailed(_)) => Err(StorageError::AllocFailed),
        Err(_) => Err(StorageError::Other),
    }
}

impl DoubletsStore {
    /// An empty store.
    pub fn new() -> (r: Result<DoubletsStore, StorageError>)
        ensures
            r matches Ok(s) ==> s.model() == LinksModel::empty() && store_wf(s.model()),
    {
        let r = open_store();
        if let Ok(s) = &r {
            assert(store_wf(s.model()));
        }
        r
    }
}

impl LinkStorage for DoubletsStore {
    open spec fn model(&self) -> LinksModel {
        stored_doublets(*self)
    }

    fn count(&self) -> (r: usize) {
        store_count(self)
    }

    fn doublets(&self) -> (r: Vec<(usize, usize, usize)>) {
        store_doublets(self)
    }

    fn get_or_create(&mut self, source: usize, target: usize) -> (r: Result<usize, StorageError>) {
        let r = store_get_or_create(self, source, target);
        proof {
            let before = stored_doublets(*old(self));
            let after = stored_doublets(*self);
            if let Ok(id) = r {
                if !has_pair(before, source, target) {
                    assert forall|i: usize, j: usize|
                        #[trigger] after.contains_key(i) && #[trigger] after.contains_key(j)
                            && after[i] == after[j] implies i == j by {
                        if i != id && j != id {
                            assert(before.contains_key(i) && before.contains_key(j));
                        } else if i == id && j != id {
                            assert(before.contains_key(j));
                        } else if i != id && j == id {
                            assert(before.contains_key(i));
                        }
                    }
                }
            }
        }
        r
    }
}

} // verus!
