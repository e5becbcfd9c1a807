//! The storage capability contract and the mathematical model of a store.

use vstd::prelude::*;

verus! {

/// The largest identifier that can name a doublet; the values above it are
/// reserved by the engine as markers.
pub const MAX_REFERENCE: usize = usize::MAX - 6;

/// A stored doublet as the gateway hands it out.
#[derive(Clone, Copy, Debug, PartialEq, Eq, Structural)]
pub struct Link {
    pub id: usize,
    pub from_id: usize,
    pub to_id: usize,
}

/// One requested `(source, target)` pair of a batch insertion.
#[derive(Clone, Copy, Debug, PartialEq, Eq, Structural)]
pub struct InputLink {
    pub from_id: usize,
    pub to_id: usize,
}

/// What a store holds: each identifier mapped to its `(source, target)` pair.
pub type LinksModel = Map<usize, (usize, usize)>;

/// An identifier that may stand as an id, a source or a target.
pub open spec fn valid_ref(x: usize) -> bool {
    1 <= x && x <= MAX_REFERENCE
}

/// Some doublet of `m` joins `source` to `target`.
pub open spec fn has_pair(m: LinksModel, source: usize, target: usize) -> bool {
    exists|id: usize| #[trigger] m.contains_key(id) && m[id] == (source, target)
}

/// No two identifiers of `m` hold the same pair.
pub open spec fn pairs_unique(m: LinksModel) -> bool {
    forall|i: usize, j: usize|
        #[trigger] m.contains_key(i) && #[trigger] m.contains_key(j) && m[i] == m[j] ==> i == j
}

/// Every identifier, source and target of `m` is a valid reference.
pub open spec fn refs_valid(m: LinksModel) -> bool {
    forall|id: usize|
        #[trigger] m.contains_key(id) ==> valid_ref(id) && valid_ref(m[id].0) && valid_ref(
            m[id].1,
        )
}

/// The invariant of every store: finitely many doublets, valid references,
/// and at most one doublet per pair.
pub open spec fn store_wf(m: LinksModel) -> bool {
    m.dom().finite() && pairs_unique(m) && refs_valid(m)
}

/// `after` and `id` are a correct outcome of get-or-create of
/// `(source, target)` on `before`: the existing doublet is returned untouched,
/// or a fresh identifier is bound to the pair.
pub open spec fn get_or_create_post(
    before: LinksModel,
    source: usize,
    target: usize,
    id: usize,
    after: LinksModel,
) -> bool {
    if has_pair(before, source, target) {
        after == before && before.contains_key(id) && before[id] == (source, target)
    } else {
        !before.contains_key(id) && valid_ref(id) && after == before.insert(id, (source, target))
    }
}

/// `out` lists the doublets of `m` as `(id, source, target)`, each once, in
/// ascending order of id.
pub open spec fn lists_doublets(m: LinksModel, out: Seq<(usize, usize, usize)>) -> bool {
    &&& forall|i: int, j: int| 0 <= i < j < out.len() ==> out[i].0 < out[j].0
    &&& forall|i: int|
        0 <= i < out.len() ==> #[trigger] m.contains_key(out[i].0) && m[out[i].0] == (
            out[i].1,
            out[i].2,
        )
    &&& forall|id: usize| #[trigger]
        m.contains_key(id) ==> exists|i: int| 0 <= i < out.len() && out[i].0 == id
}

/// Why a storage engine refused to create a doublet.
#[derive(Debug)]
pub enum StorageError {
    /// The identifier space of the engine is exhausted.
    LimitReached(usize),
    /// The engine could not obtain memory for more doublets.
    AllocFailed,
    /// Any other failure of the engine.
    Other,
}

/// The operations that a storage engine offers to the gateway.
pub trait LinkStorage: Sized {
    /// The doublets that the store holds.
    spec fn model(&self) -> LinksModel;

    /// The number of stored doublets.
    fn count(&self) -> (r: usize)
        requires
            store_wf(self.model()),
        ensures
            r == self.model().len(),
    ;

    /// Every stored doublet as `(id, source, target)`, in ascending order of id.
    fn doublets(&self) -> (r: Vec<(usize, usize, usize)>)
        requires
            store_wf(self.model()),
        ensures
            lists_doublets(self.model(), r@),
    ;

    /// The id of the doublet joining `source` to `target`, created if there is
    /// none. On an error the store is left as it was.
    fn get_or_create(&mut self, source: usize, target: usize) -> (r: Result<usize, StorageError>)
        requires
            store_wf(old(self).model()),
            valid_ref(source),
            valid_ref(target),
        ensures
            store_wf(final(self).model()),
            match r {
                Ok(id) => get_or_create_post(old(self).model(), source, target, id, final(self).model()),
                Err(_) => !has_pair(old(self).model(), source, target) && final(self).model()
                    == old(self).model(),
            },
    ;
}

} // verus!
