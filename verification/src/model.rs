//! The abstract model of an index.
//!
//! An index is described by the history of the mutations that succeeded on
//! it since construction (a sequence of [`IndexOp`]s). The entries it stores
//! and the ids that are searchable are functions of that history. Whether an
//! insert succeeds is decided by the implementation's insert rule, a function
//! of the history and of the item (see `IndexCore::insert_rule`).

use std::sync::Arc;

use iqdb_types::{DistanceMetric, Hit, IqdbError, Metadata, SearchParams, VectorId};

use vstd::prelude::*;

verus! {

/// One mutation that succeeded on an index.
pub enum IndexOp<T> {
    /// A vector stored under `id`, with its components and metadata.
    Insert { id: VectorId, vector: Seq<T>, metadata: Option<Metadata> },
    /// The vector under `id` removed from the search space.
    Delete { id: VectorId },
}

/// An insert rule: whether an insert of an id with its components and
/// metadata succeeds after a given history, and with which error it fails.
pub type InsertRule<T> = spec_fn(Seq<IndexOp<T>>, VectorId, Seq<T>, Option<Metadata>) -> Result<(), IqdbError>;

/// A search rule: what a search for a query under given parameters returns
/// after a given history.
pub type SearchRule<T> = spec_fn(Seq<IndexOp<T>>, Seq<T>, SearchParams) -> Result<Seq<Hit>, IqdbError>;

/// The entries stored after `history`: each searchable id with the
/// components and metadata it was inserted with.
pub open spec fn stored_entries<T>(history: Seq<IndexOp<T>>) -> Map<VectorId, (Seq<T>, Option<Metadata>)>
    decreases history.len(),
{
    if history.len() == 0 {
        Map::empty()
    } else {
        let before = stored_entries(history.drop_last());
        match history.last() {
            IndexOp::Insert { id, vector, metadata } => before.insert(id, (vector, metadata)),
            IndexOp::Delete { id } => before.remove(id),
        }
    }
}

/// The ids that are searchable after `history`.
pub open spec fn searchable_ids<T>(history: Seq<IndexOp<T>>) -> Set<VectorId> {
    stored_entries(history).dom()
}

/// The history entry that a successful insert of `item` appends.
pub open spec fn insert_op<T>(item: (VectorId, Arc<[T]>, Option<Metadata>)) -> IndexOp<T> {
    IndexOp::Insert { id: item.0, vector: (*item.1)@, metadata: item.2 }
}

/// The history entries that successful inserts of `items`, in order, append.
pub open spec fn insert_ops<T>(items: Seq<(VectorId, Arc<[T]>, Option<Metadata>)>) -> Seq<IndexOp<T>> {
    items.map_values(|item: (VectorId, Arc<[T]>, Option<Metadata>)| insert_op(item))
}

/// Whether `id` was deleted at some point of `history`.
pub open spec fn was_deleted<T>(history: Seq<IndexOp<T>>, id: VectorId) -> bool {
    exists|i: int| 0 <= i < history.len() && #[trigger] history[i] == IndexOp::<T>::Delete { id }
}

/// What an insert of `id` with components `vector` may return after
/// `history` in an index of dimension `dim`: a vector of another length is
/// refused with `DimensionMismatch`, an id already searchable with
/// `Duplicate` (either, when both hold); a new id of the right length is
/// accepted, except that an id deleted earlier may instead be refused with
/// `Duplicate`.
pub open spec fn insert_outcome_allowed<T>(
    dim: nat,
    history: Seq<IndexOp<T>>,
    id: VectorId,
    vector: Seq<T>,
    r: Result<(), IqdbError>,
) -> bool {
    let present = searchable_ids(history).contains(id);
    let mismatch = Err::<(), IqdbError>(IqdbError::DimensionMismatch {
        expected: dim as usize,
        found: vector.len() as usize,
    });
    let duplicate = Err::<(), IqdbError>(IqdbError::Duplicate);
    &&& vector.len() != dim && !present ==> r == mismatch
    &&& vector.len() == dim && present ==> r == duplicate
    &&& vector.len() != dim && present ==> r == mismatch || r == duplicate
    &&& vector.len() == dim && !present && !was_deleted(history, id) ==> r is Ok
    &&& vector.len() == dim && !present && was_deleted(history, id) ==> r is Ok || r == duplicate
}

/// An insert rule that follows the insert contract after every history.
pub open spec fn insert_rule_allowed<T>(rule: InsertRule<T>, dim: nat) -> bool {
    forall|history: Seq<IndexOp<T>>, id: VectorId, vector: Seq<T>, metadata: Option<Metadata>|
        insert_outcome_allowed(dim, history, id, vector, #[trigger] rule(history, id, vector, metadata))
}

/// What a search for `query` under `params` may return after `history` in
/// an index of dimension `dim` and metric `metric`: a query of another
/// length is refused with `DimensionMismatch`, a search under another metric
/// with `InvalidMetric` (either, when both hold); an unfiltered search of the
/// right length under the index metric succeeds; a successful search returns
/// at most `params.k` hits, each for a searchable id.
pub open spec fn search_outcome_allowed<T>(
    dim: nat,
    metric: DistanceMetric,
    history: Seq<IndexOp<T>>,
    query: Seq<T>,
    params: SearchParams,
    r: Result<Seq<Hit>, IqdbError>,
) -> bool {
    let mismatch = Err::<Seq<Hit>, IqdbError>(IqdbError::DimensionMismatch {
        expected: dim as usize,
        found: query.len() as usize,
    });
    let wrong_metric = Err::<Seq<Hit>, IqdbError>(IqdbError::InvalidMetric);
    &&& query.len() != dim && params.metric == metric ==> r == mismatch
    &&& query.len() == dim && params.metric != metric ==> r == wrong_metric
    &&& query.len() != dim && params.metric != metric ==> r == mismatch || r == wrong_metric
    &&& query.len() == dim && params.metric == metric && params.filter is None ==> r is Ok
    &&& r matches Ok(hits) ==> hits.len() <= params.k
    &&& r matches Ok(hits) ==> forall|i: int|
        0 <= i < hits.len() ==> searchable_ids(history).contains(#[trigger] hits[i].id)
}

/// A search rule that follows the search contract after every history.
pub open spec fn search_rule_allowed<T>(rule: SearchRule<T>, dim: nat, metric: DistanceMetric) -> bool {
    forall|history: Seq<IndexOp<T>>, query: Seq<T>, params: SearchParams|
        search_outcome_allowed(dim, metric, history, query, params, #[trigger] rule(history, query, params))
}

/// Appending inserts to a history does not change which ids were deleted.
pub proof fn lemma_inserts_keep_deletions<T>(history: Seq<IndexOp<T>>, inserts: Seq<IndexOp<T>>, id: VectorId)
    requires
        forall|i: int| 0 <= i < inserts.len() ==> #[trigger] inserts[i] is Insert,
    ensures
        was_deleted(history + inserts, id) == was_deleted(history, id),
{
    let all = history + inserts;
    if was_deleted(all, id) {
        let i = choose|i: int| 0 <= i < all.len() && #[trigger] all[i] == IndexOp::<T>::Delete { id };
        if i >= history.len() {
            assert(inserts[i - history.len()] is Insert);
        } else {
            assert(history[i] == all[i]);
        }
    }
    if was_deleted(history, id) {
        let i = choose|i: int| 0 <= i < history.len() && #[trigger] history[i] == IndexOp::<T>::Delete { id };
        assert(all[i] == history[i]);
    }
}

/// Finitely many ids are searchable after any history.
pub proof fn lemma_stored_entries_finite<T>(history: Seq<IndexOp<T>>)
    ensures
        stored_entries(history).dom().finite(),
    decreases history.len(),
{
    if history.len() > 0 {
        lemma_stored_entries_finite(history.drop_last());
    }
}

/// Appending one entry to a history applies that entry to what is stored.
pub proof fn lemma_stored_entries_push<T>(history: Seq<IndexOp<T>>, op: IndexOp<T>)
    ensures
        stored_entries(history.push(op)) == match op {
            IndexOp::Insert { id, vector, metadata } => stored_entries(history).insert(id, (vector, metadata)),
            IndexOp::Delete { id } => stored_entries(history).remove(id),
        },
{
    assert(history.push(op).drop_last() =~= history);
}

} // verus!
