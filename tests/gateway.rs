use std::sync::Arc;

use link_gateway::engine::DoubletsStore;
use link_gateway::gateway::{InsertError, Mutation, Query};
use link_gateway::storage::{InputLink, Link, LinkStorage, MAX_REFERENCE};

fn fresh() -> DoubletsStore {
    DoubletsStore::new().expect("a fresh store")
}

fn req(from_id: usize, to_id: usize) -> InputLink {
    InputLink { from_id, to_id }
}

fn pairs(links: &[Link]) -> Vec<(usize, usize)> {
    links.iter().map(|l| (l.from_id, l.to_id)).collect()
}

#[test]
fn empty_store_lists_no_links() {
    let store = fresh();
    assert_eq!(store.count(), 0);
    assert!(Query::<DoubletsStore>::links(&store).is_empty());
}

#[test]
fn duplicate_in_batch_reuses_id() {
    let mut store = fresh();
    let out = Mutation::<DoubletsStore>::insert_links(
        &mut store,
        vec![req(1, 2), req(2, 3), req(1, 2)],
    )
    .expect("batch stored");
    assert_eq!(out.len(), 3);
    let x = out[0].id;
    let y = out[1].id;
    assert_ne!(x, y);
    assert_eq!(out[0], Link { id: x, from_id: 1, to_id: 2 });
    assert_eq!(out[1], Link { id: y, from_id: 2, to_id: 3 });
    assert_eq!(out[2], Link { id: x, from_id: 1, to_id: 2 });

    let listed = Query::<DoubletsStore>::links(&store);
    assert_eq!(listed.len(), 2);
    assert!(listed.contains(&Link { id: x, from_id: 1, to_id: 2 }));
    assert!(listed.contains(&Link { id: y, from_id: 2, to_id: 3 }));
    assert_eq!(store.count(), 2);
}

#[test]
fn get_or_create_twice_returns_same_id() {
    let mut store = fresh();
    let first = store.get_or_create(5, 7).expect("created");
    let second = store.get_or_create(5, 7).expect("found");
    assert_eq!(first, second);
    assert_eq!(store.count(), 1);
}

#[test]
fn get_or_create_distinct_pairs_get_distinct_ids() {
    let mut store = fresh();
    let a = store.get_or_create(1, 2).expect("created");
    let b = store.get_or_create(2, 1).expect("created");
    assert_ne!(a, b);
    assert!(a >= 1 && b >= 1);
    assert_eq!(store.count(), 2);
}

#[test]
fn listing_holds_every_distinct_insertion() {
    let mut store = fresh();
    let asked = vec![req(1, 1), req(1, 2), req(2, 1), req(3, 9)];
    let out = Mutation::<DoubletsStore>::insert_links(&mut store, asked.clone()).expect("stored");
    let listed = Query::<DoubletsStore>::links(&store);
    assert_eq!(listed.len(), asked.len());
    let mut got = pairs(&listed);
    got.sort();
    assert_eq!(got, vec![(1, 1), (1, 2), (2, 1), (3, 9)]);
    for w in listed.windows(2) {
        assert!(w[0].id < w[1].id);
    }
    for (o, l) in out.iter().zip(asked.iter()) {
        assert!(listed.contains(o));
        assert_eq!((o.from_id, o.to_id), (l.from_id, l.to_id));
    }
}

#[test]
fn batch_records_follow_request_order() {
    let mut store = fresh();
    let asked = vec![req(4, 4), req(3, 3), req(4, 4), req(2, 2), req(3, 3)];
    let out = Mutation::<DoubletsStore>::insert_links(&mut store, asked.clone()).expect("stored");
    assert_eq!(pairs(&out), vec![(4, 4), (3, 3), (4, 4), (2, 2), (3, 3)]);
    assert_eq!(out[0].id, out[2].id);
    assert_eq!(out[1].id, out[4].id);
    assert_ne!(out[0].id, out[1].id);
    assert_ne!(out[3].id, out[0].id);
    assert_eq!(store.count(), 3);
}

#[test]
fn second_batch_reuses_existing_ids() {
    let mut store = fresh();
    let first = Mutation::<DoubletsStore>::insert_links(&mut store, vec![req(1, 2)]).expect("stored");
    let second =
        Mutation::<DoubletsStore>::insert_links(&mut store, vec![req(3, 4), req(1, 2)]).expect("stored");
    assert_eq!(second[1].id, first[0].id);
    assert_ne!(second[0].id, first[0].id);
    assert_eq!(store.count(), 2);
}

#[test]
fn empty_batch_returns_no_records() {
    let mut store = fresh();
    let out = Mutation::<DoubletsStore>::insert_links(&mut store, vec![]).expect("stored");
    assert!(out.is_empty());
    assert_eq!(store.count(), 0);
}

#[test]
fn zero_reference_is_refused_before_storing() {
    let mut store = fresh();
    let r = Mutation::<DoubletsStore>::insert_links(&mut store, vec![req(1, 2), req(0, 3)]);
    assert!(matches!(r, Err(InsertError::InvalidReference { position: 1 })));
    assert_eq!(store.count(), 0);
    assert!(Query::<DoubletsStore>::links(&store).is_empty());
}

#[test]
fn marker_reference_is_refused() {
    let mut store = fresh();
    let r = Mutation::<DoubletsStore>::insert_links(
        &mut store,
        vec![req(usize::MAX, 1), req(0, 0)],
    );
    assert!(matches!(r, Err(InsertError::InvalidReference { position: 0 })));
    let r = Mutation::<DoubletsStore>::insert_links(&mut store, vec![req(1, MAX_REFERENCE + 1)]);
    assert!(matches!(r, Err(InsertError::InvalidReference { position: 0 })));
    assert_eq!(store.count(), 0);
}

#[test]
fn largest_reference_is_accepted() {
    let mut store = fresh();
    let out = Mutation::<DoubletsStore>::insert_links(
        &mut store,
        vec![req(MAX_REFERENCE, MAX_REFERENCE)],
    )
    .expect("stored");
    assert_eq!(out.len(), 1);
    assert_eq!((out[0].from_id, out[0].to_id), (MAX_REFERENCE, MAX_REFERENCE));
    assert_eq!(MAX_REFERENCE, usize::MAX - 6);
}

#[test]
fn listing_projects_doublets() {
    let mut store = fresh();
    let id = store.get_or_create(8, 9).expect("created");
    assert_eq!(store.doublets(), vec![(id, 8, 9)]);
    assert_eq!(
        Query::<DoubletsStore>::links(&store),
        vec![Link { id, from_id: 8, to_id: 9 }]
    );
}

#[test]
fn resolvers_share_one_locked_store() {
    let shared = Arc::new(async_std::sync::RwLock::new(fresh()));
    let query = Query::new(shared.clone());
    let mutation = Mutation::new(shared.clone());
    assert!(Arc::ptr_eq(&query.links, &shared));
    assert!(Arc::ptr_eq(&mutation.links, &shared));
    let out = async_std::task::block_on(async {
        let mut store = mutation.links.write().await;
        Mutation::<DoubletsStore>::insert_links(&mut store, vec![req(1, 2)])
    })
    .expect("stored");
    let listed = async_std::task::block_on(async {
        let store = query.links.read().await;
        Query::<DoubletsStore>::links(&store)
    });
    assert_eq!(listed, out);
}
