//! Laws that relate the gateway's operations to one another.

use crate::gateway::{batch_applied, lists_links, records_answer, requested_pairs};
use crate::storage::{get_or_create_post, has_pair, store_wf, InputLink, Link, LinksModel};
use vstd::prelude::*;

verus! {

broadcast use vstd::set::group_set_axioms;

/// Get-or-create of one pair, twice in a row, returns the same id both times;
/// across both calls the store gains exactly one doublet when it lacked the
/// pair, and none when it had it.
pub proof fn get_or_create_twice(
    m0: LinksModel,
    source: usize,
    target: usize,
    id1: usize,
    m1: LinksModel,
    id2: usize,
    m2: LinksModel,
)
    requires
        store_wf(m0),
        get_or_create_post(m0, source, target, id1, m1),
        get_or_create_post(m1, source, target, id2, m2),
    ensures
        id1 == id2,
        m2 == m1,
        m2.len() == m0.len() + if has_pair(m0, source, target) {
            0int
        } else {
            1int
        },
{
    assert(m1.contains_key(id1) && m1[id1] == (source, target));
    assert(has_pair(m1, source, target));
    if has_pair(m0, source, target) {
        assert(m0.contains_key(id2) && m0[id2] == m0[id1]);
    } else {
        if id2 != id1 {
            assert(m0.contains_key(id2) && m0[id2] == (source, target));
        }
        assert(m1.dom() == m0.dom().insert(id1));
    }
}

/// Requests that share a pair are answered with one id, within a batch as
/// across batches, because the store holds each pair once.
pub proof fn batch_duplicates_share_id(after: LinksModel, reqs: Seq<InputLink>, out: Seq<Link>)
    requires
        store_wf(after),
        records_answer(after, reqs, out),
    ensures
        forall|i: int, j: int|
            0 <= i < out.len() && 0 <= j < out.len() && reqs[i].from_id == reqs[j].from_id
                && reqs[i].to_id == reqs[j].to_id ==> (#[trigger] out[i]).id == (#[trigger] out[j]).id,
{
    assert forall|i: int, j: int|
        0 <= i < out.len() && 0 <= j < out.len() && reqs[i].from_id == reqs[j].from_id
            && reqs[i].to_id == reqs[j].to_id implies (#[trigger] out[i]).id == (
        #[trigger] out[j]).id by {
        assert(after.contains_key(out[i].id) && after.contains_key(out[j].id));
    }
}

/// A store that holds no doublet lists no record.
pub proof fn empty_store_lists_nothing(listed: Seq<Link>)
    requires
        lists_links(LinksModel::empty(), listed),
    ensures
        listed.len() == 0,
{
    if listed.len() > 0 {
        let l = listed.map_values(|l: Link| l@);
        assert(LinksModel::empty().contains_key(l[0].0));
    }
}

/// The ids of `s` with no duplicate form a set of `s.len()` elements.
proof fn lemma_distinct_ids_count(s: Seq<usize>, d: Set<usize>)
    requires
        forall|i: int, j: int| 0 <= i < s.len() && 0 <= j < s.len() && i != j ==> s[i] != s[j],
        forall|x: usize| d.contains(x) <==> exists|i: int| 0 <= i < s.len() && s[i] == x,
    ensures
        d.len() == s.len(),
{
    assert(s.no_duplicates());
    s.unique_seq_to_set();
    assert(s.to_set() =~= d);
}

/// Some request of `reqs` asks for the pair of `l`.
pub open spec fn requested(reqs: Seq<InputLink>, l: Link) -> bool {
    exists|i: int| 0 <= i < reqs.len() && l.from_id == reqs[i].from_id && l.to_id == reqs[i].to_id
}

/// Some record of `listed` holds the pair that `r` asks for.
pub open spec fn listed_pair(listed: Seq<Link>, r: InputLink) -> bool {
    exists|k: int|
        0 <= k < listed.len() && listed[k].from_id == r.from_id && listed[k].to_id == r.to_id
}

/// After a batch of pairwise distinct pairs on an empty store, the listing
/// holds exactly one record per requested pair: as many records as requests,
/// each one a requested pair, every requested pair among them, no record twice.
pub proof fn listing_after_distinct_batch(
    reqs: Seq<InputLink>,
    out: Seq<Link>,
    after: LinksModel,
    listed: Seq<Link>,
)
    requires
        forall|i: int, j: int|
            0 <= i < reqs.len() && 0 <= j < reqs.len() && i != j ==> (#[trigger] reqs[i]).from_id
                != (#[trigger] reqs[j]).from_id || reqs[i].to_id != reqs[j].to_id,
        store_wf(after),
        batch_applied(LinksModel::empty(), requested_pairs(reqs), after),
        records_answer(after, reqs, out),
        lists_links(after, listed),
    ensures
        listed.len() == reqs.len(),
        forall|k: int| 0 <= k < listed.len() ==> requested(reqs, #[trigger] listed[k]),
        forall|i: int| 0 <= i < reqs.len() ==> listed_pair(listed, #[trigger] reqs[i]),
        forall|k1: int, k2: int|
            0 <= k1 < listed.len() && 0 <= k2 < listed.len() && k1 != k2 ==> (#[trigger] listed[k1])
                != (#[trigger] listed[k2]),
{
    let l = listed.map_values(|x: Link| x@);
    let listed_ids = listed.map_values(|x: Link| x.id);
    let out_ids = out.map_values(|x: Link| x.id);
    let pairs = requested_pairs(reqs);
    assert forall|k1: int, k2: int|
        0 <= k1 < listed_ids.len() && 0 <= k2 < listed_ids.len() && k1 != k2 implies listed_ids[k1]
        != listed_ids[k2] by {
        assert(l[k1].0 == listed_ids[k1] && l[k2].0 == listed_ids[k2]);
    }
    assert forall|x: usize| after.dom().contains(x) <==> exists|i: int|
        0 <= i < listed_ids.len() && listed_ids[i] == x by {
        if after.dom().contains(x) {
            let i = choose|i: int| 0 <= i < l.len() && l[i].0 == x;
            assert(listed_ids[i] == x);
        }
        if exists|i: int| 0 <= i < listed_ids.len() && listed_ids[i] == x {
            let i = choose|i: int| 0 <= i < listed_ids.len() && listed_ids[i] == x;
            assert(l[i].0 == x);
            assert(after.contains_key(l[i].0));
        }
    }
    lemma_distinct_ids_count(listed_ids, after.dom());
    assert forall|i: int, j: int|
        0 <= i < out_ids.len() && 0 <= j < out_ids.len() && i != j implies out_ids[i]
        != out_ids[j] by {
        assert(after[out[i].id] == (reqs[i].from_id, reqs[i].to_id));
        assert(after[out[j].id] == (reqs[j].from_id, reqs[j].to_id));
    }
    assert forall|x: usize| after.dom().contains(x) <==> exists|i: int|
        0 <= i < out_ids.len() && out_ids[i] == x by {
        if after.dom().contains(x) {
            let i = choose|i: int| 0 <= i < pairs.len() && after[x] == pairs[i];
            assert(after.contains_key(out[i].id));
            assert(out_ids[i] == x);
        }
    }
    lemma_distinct_ids_count(out_ids, after.dom());
    assert forall|k: int| 0 <= k < listed.len() implies requested(reqs, #[trigger] listed[k]) by {
        assert(l[k] == listed[k]@);
        assert(after.contains_key(l[k].0));
        let i = choose|i: int| 0 <= i < pairs.len() && after[l[k].0] == pairs[i];
        assert(pairs[i] == (reqs[i].from_id, reqs[i].to_id));
        assert(listed[k]@ == l[k]);
        assert(listed[k].from_id == reqs[i].from_id && listed[k].to_id == reqs[i].to_id);
    }
    assert forall|i: int| 0 <= i < reqs.len() implies listed_pair(listed, #[trigger] reqs[i]) by {
        assert(after.contains_key(out[i].id));
        let k = choose|k: int| 0 <= k < l.len() && l[k].0 == out[i].id;
        assert(l[k] == listed[k]@);
        assert(after[l[k].0] == (l[k].1, l[k].2));
        assert(listed[k].from_id == reqs[i].from_id && listed[k].to_id == reqs[i].to_id);
    }
    assert forall|k1: int, k2: int|
        0 <= k1 < listed.len() && 0 <= k2 < listed.len() && k1 != k2 implies (#[trigger] listed[k1])
        != (#[trigger] listed[k2]) by {
        assert(listed_ids[k1] != listed_ids[k2]);
    }
}

} // verus!
