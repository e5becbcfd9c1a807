//! The two resolvers of the gateway: listing every doublet, and inserting a
//! batch of pairs with get-or-create semantics.

use crate::storage::{
    get_or_create_post, has_pair, lists_doublets, store_wf, valid_ref, InputLink, Link,
    LinkStorage, LinksModel, StorageError,
};
use std::sync::Arc;
use vstd::prelude::*;

verus! {

#[verifier::external_type_specification]
#[verifier::external_body]
#[verifier::reject_recursive_types(T)]
pub struct ExRwLock<T: ?Sized>(async_std::sync::RwLock<T>);

impl View for Link {
    type V = (usize, usize, usize);

    open spec fn view(&self) -> (usize, usize, usize) {
        (self.id, self.from_id, self.to_id)
    }
}

/// `out` lists the doublets of `m` as records, each once, in ascending order
/// of id.
pub open spec fn lists_links(m: LinksModel, out: Seq<Link>) -> bool {
    lists_doublets(m, out.map_values(|l: Link| l@))
}

/// Both references of a request are valid.
pub open spec fn request_valid(r: InputLink) -> bool {
    valid_ref(r.from_id) && valid_ref(r.to_id)
}

/// The `(source, target)` pairs that a batch asks for, in order.
pub open spec fn requested_pairs(reqs: Seq<InputLink>) -> Seq<(usize, usize)> {
    reqs.map_values(|r: InputLink| (r.from_id, r.to_id))
}

/// `after` keeps every doublet of `before`, holds a doublet for each of
/// `pairs`, and holds no other new doublet.
pub open spec fn batch_applied(
    before: LinksModel,
    pairs: Seq<(usize, usize)>,
    after: LinksModel,
) -> bool {
    &&& before.submap_of(after)
    &&& forall|i: int| 0 <= i < pairs.len() ==> has_pair(after, #[trigger] pairs[i].0, pairs[i].1)
    &&& forall|id: usize| #[trigger]
        after.contains_key(id) && !before.contains_key(id) ==> exists|i: int|
            0 <= i < pairs.len() && after[id] == pairs[i]
}

/// The `k`-th record of `out` answers the `k`-th request: it repeats the pair
/// and gives the id under which `after` holds it.
pub open spec fn records_answer(after: LinksModel, reqs: Seq<InputLink>, out: Seq<Link>) -> bool {
    &&& out.len() == reqs.len()
    &&& forall|k: int|
        0 <= k < out.len() ==> {
            &&& (#[trigger] out[k]).from_id == reqs[k].from_id
            &&& out[k].to_id == reqs[k].to_id
            &&& after.contains_key(out[k].id)
            &&& after[out[k].id] == (reqs[k].from_id, reqs[k].to_id)
        }
}

/// Why a batch insertion failed.
#[derive(Debug)]
pub enum InsertError {
    /// The request at `position`, the first such, names an identifier that
    /// cannot stand as a reference; nothing was stored.
    InvalidReference { position: usize },
    /// The engine refused to create a doublet. The doublets created by the
    /// requests before it stay stored; no record is returned.
    Storage(StorageError),
}

/// The read side of the gateway: it lists the doublets of the shared store.
#[verifier::reject_recursive_types(S)]
pub struct Query<S: LinkStorage> {
    pub links: Arc<async_std::sync::RwLock<S>>,
}

impl<S: LinkStorage> Query<S> {
    /// A resolver over the shared store `links`.
    pub fn new(links: Arc<async_std::sync::RwLock<S>>) -> (r: Self)
        ensures
            r.links == links,
    {
        Query { links }
    }

    /// Every doublet of `store` as a record, in ascending order of id. The
    /// caller holds the store's lock for reading across the call.
    pub fn links(store: &S) -> (r: Vec<Link>)
        requires
            store_wf(store.model()),
        ensures
            lists_links(store.model(), r@),
    {
        let doublets = store.doublets();
        let mut out: Vec<Link> = Vec::with_capacity(store.count());
        let mut i: usize = 0;
        while i < doublets.len()
            invariant
                i <= doublets.len(),
                out.len() == i,
                forall|k: int| 0 <= k < i ==> (#[trigger] out@[k])@ == doublets@[k],
            decreases doublets.len() - i,
        {
            let (id, from_id, to_id) = doublets[i];
            out.push(Link { id, from_id, to_id });
            i = i + 1;
        }
        assert(out@.map_values(|l: Link| l@) =~= doublets@);
        out
    }
}

/// A get-or-create outcome keeps every doublet of `before` and holds the pair
/// under the returned id.
proof fn lemma_get_or_create_grows(
    before: LinksModel,
    source: usize,
    target: usize,
    id: usize,
    after: LinksModel,
)
    requires
        get_or_create_post(before, source, target, id, after),
    ensures
        before.submap_of(after),
        after.contains_key(id),
        after[id] == (source, target),
        forall|k: usize| #[trigger]
            after.contains_key(k) && !before.contains_key(k) ==> k == id,
{
}

/// The write side of the gateway: it inserts batches into the shared store.
#[verifier::reject_recursive_types(S)]
pub struct Mutation<S: LinkStorage> {
    pub links: Arc<async_std::sync::RwLock<S>>,
}

impl<S: LinkStorage> Mutation<S> {
    /// A resolver over the shared store `links`.
    pub fn new(links: Arc<async_std::sync::RwLock<S>>) -> (r: Self)
        ensures
            r.links == links,
    {
        Mutation { links }
    }

    /// Gets or creates a doublet for each request, in order, and answers each
    /// with a record. A batch that names an invalid reference is refused before
    /// the store is touched. The caller holds the store's lock for writing
    /// across the call, so no reader sees a batch half done.
    pub fn insert_links(store: &mut S, objects: Vec<InputLink>) -> (r: Result<
        Vec<Link>,
        InsertError,
    >)
        requires
            store_wf(old(store).model()),
        ensures
            store_wf(final(store).model()),
            match r {
                Ok(out) => (forall|k: int| 0 <= k < objects.len() ==> request_valid(#[trigger] objects@[k]))
                    && batch_applied(old(store).model(), requested_pairs(objects@), final(store).model())
                    && records_answer(final(store).model(), objects@, out@),
                Err(InsertError::InvalidReference { position }) => position < objects.len()
                    && !request_valid(objects@[position as int])
                    && (forall|k: int| 0 <= k < position ==> request_valid(#[trigger] objects@[k]))
                    && final(store).model() == old(store).model(),
                Err(InsertError::Storage(_)) => (forall|k: int| 0 <= k < objects.len() ==> request_valid(#[trigger] objects@[k]))
                    && exists|n: int| 0 <= n < objects.len()
                        && batch_applied(old(store).model(), requested_pairs(objects@).take(n), final(store).model())
                        && !has_pair(final(store).model(), objects@[n].from_id, objects@[n].to_id),
            },
    {
        let ghost before = store.model();
        let ghost pairs = requested_pairs(objects@);
        let mut p: usize = 0;
        while p < objects.len()
            invariant
                p <= objects.len(),
                before == old(store).model(),
                store.model() == before,
                store_wf(before),
                forall|k: int| 0 <= k < p ==> request_valid(#[trigger] objects@[k]),
            decreases objects.len() - p,
        {
            let o = objects[p];
            if !(1 <= o.from_id && o.from_id <= crate::storage::MAX_REFERENCE && 1 <= o.to_id
                && o.to_id <= crate::storage::MAX_REFERENCE) {
                return Err(InsertError::InvalidReference { position: p });
            }
            p = p + 1;
        }
        let mut out: Vec<Link> = Vec::with_capacity(objects.len());
        let mut i: usize = 0;
        while i < objects.len()
            invariant
                i <= objects.len(),
                out.len() == i,
                pairs == requested_pairs(objects@),
                before == old(store).model(),
                forall|k: int| 0 <= k < objects.len() ==> request_valid(#[trigger] objects@[k]),
                store_wf(store.model()),
                batch_applied(before, pairs.take(i as int), store.model()),
                records_answer(store.model(), objects@.take(i as int), out@),
            decreases objects.len() - i,
        {
            let o = objects[i];
            let ghost cur = store.model();
            assert(request_valid(objects@[i as int]));
            match store.get_or_create(o.from_id, o.to_id) {
                Ok(id) => {
                    let ghost next = store.model();
                    proof {
                        lemma_get_or_create_grows(cur, o.from_id, o.to_id, id, next);
                        let done = pairs.take(i as int);
                        let now = pairs.take(i as int + 1);
                        assert(now[i as int] == (o.from_id, o.to_id));
                        assert forall|k: int| 0 <= k < now.len() implies has_pair(
                            next,
                            #[trigger] now[k].0,
                            now[k].1,
                        ) by {
                            if k < i {
                                assert(now[k] == done[k]);
                                let w = choose|w: usize|
                                    #[trigger] cur.contains_key(w) && cur[w] == (done[k].0, done[k].1);
                                assert(next.contains_key(w));
                            } else {
                                assert(next.contains_key(id));
                            }
                        }
                        assert forall|w: usize| #[trigger]
                            next.contains_key(w) && !before.contains_key(w) implies exists|k: int|
                                0 <= k < now.len() && next[w] == now[k] by {
                            if cur.contains_key(w) {
                                let k = choose|k: int| 0 <= k < done.len() && cur[w] == done[k];
                                assert(now[k] == done[k]);
                            } else {
                                assert(w == id);
                                assert(next[w] == now[i as int]);
                            }
                        }
                        assert(before.submap_of(next));
                    }
                    out.push(Link { id, from_id: o.from_id, to_id: o.to_id });
                    proof {
                        let reqs = objects@.take(i as int + 1);
                        assert forall|k: int| 0 <= k < out@.len() implies {
                            &&& (#[trigger] out@[k]).from_id == reqs[k].from_id
                            &&& out@[k].to_id == reqs[k].to_id
                            &&& store.model().contains_key(out@[k].id)
                            &&& store.model()[out@[k].id] == (reqs[k].from_id, reqs[k].to_id)
                        } by {
                            if k < i {
                                assert(reqs[k] == objects@.take(i as int)[k]);
                            }
                        }
                    }
                    i = i + 1;
                },
                Err(e) => {
                    proof {
                        assert(pairs[i as int] == (o.from_id, o.to_id));
                        assert(store.model() == cur);
                        assert(0 <= i < objects.len() && batch_applied(before, pairs.take(i as int), store.model())
                            && !has_pair(store.model(), objects@[i as int].from_id, objects@[i as int].to_id));
                    }
                    return Err(InsertError::Storage(e));
                },
            }
        }
        proof {
            assert(pairs.take(objects.len() as int) =~= pairs);
            assert(objects@.take(objects.len() as int) =~= objects@);
        }
        Ok(out)
    }
}

} // verus!
