//! A gateway over an associative link store.
//!
//! The store holds doublets: triples `(id, source, target)`. The gateway
//! lists every doublet of a store and inserts batches of `(source, target)`
//! pairs with get-or-create semantics, so that a pair is never stored twice.
//! It is generic over any engine that meets the [`storage::LinkStorage`]
//! capability contract; [`engine::DoubletsStore`] is the one backed by the
//! `doublets` crate.

pub mod engine;
pub mod gateway;
pub mod laws;
pub mod storage;
