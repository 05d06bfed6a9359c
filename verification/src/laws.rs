//! Laws of the single-item operations of an index.
//!
//! A successful `insert(id, vector, metadata)` takes an index from a state
//! `before` to a state `after` whose history is `before`'s with
//! `IndexOp::Insert { id, vector, metadata }` appended, and a successful
//! `delete(id)` appends `IndexOp::Delete { id }`; a failed call leaves the
//! history unchanged. The laws below follow from those contracts.

use iqdb_types::{Hit, IqdbError, Metadata, SearchParams, VectorId};

use vstd::prelude::*;

use crate::index::IndexCore;
use crate::model::{
    IndexOp, lemma_stored_entries_finite, lemma_stored_entries_push, search_rule_allowed, searchable_ids,
    stored_entries,
};

verus! {

/// After a successful `insert(id, vector, metadata)` the id is searchable and
/// stored with exactly that vector and metadata, every other id is stored as
/// before, and (the id being new) `len` grew by one. A second insert of the
/// id with the index dimension is therefore refused with `Duplicate`.
pub proof fn lemma_insert_stores_item<T, I: IndexCore<T> + ?Sized>(
    before: &I,
    after: &I,
    id: VectorId,
    vector: Seq<T>,
    metadata: Option<Metadata>,
)
    requires
        !searchable_ids(before.history()).contains(id),
        after.history() == before.history().push(IndexOp::Insert { id, vector, metadata }),
    ensures
        searchable_ids(after.history()).contains(id),
        stored_entries(after.history())[id] == (vector, metadata),
        forall|other: VectorId| other != id ==> (#[trigger] stored_entries(after.history()).dom().contains(other)
            <==> stored_entries(before.history()).dom().contains(other)),
        forall|other: VectorId| other != id && stored_entries(before.history()).dom().contains(other)
            ==> #[trigger] stored_entries(after.history())[other] == stored_entries(before.history())[other],
        searchable_ids(after.history()).len() == searchable_ids(before.history()).len() + 1,
{
    lemma_stored_entries_push(before.history(), IndexOp::Insert { id, vector, metadata });
    lemma_stored_entries_finite(before.history());
}

/// After a successful `delete(id)` the id is no longer searchable (so
/// `search` returns no hit for it and a second delete is refused with
/// `NotFound`), every other id is stored as before, and (the id having been
/// searchable) `len` dropped by one.
pub proof fn lemma_delete_removes_item<T, I: IndexCore<T> + ?Sized>(before: &I, after: &I, id: VectorId)
    requires
        searchable_ids(before.history()).contains(id),
        after.history() == before.history().push(IndexOp::Delete { id }),
    ensures
        !searchable_ids(after.history()).contains(id),
        forall|other: VectorId| other != id ==> (#[trigger] stored_entries(after.history()).dom().contains(other)
            <==> stored_entries(before.history()).dom().contains(other)),
        forall|other: VectorId| other != id && stored_entries(before.history()).dom().contains(other)
            ==> #[trigger] stored_entries(after.history())[other] == stored_entries(before.history())[other],
        searchable_ids(after.history()).len() + 1 == searchable_ids(before.history()).len(),
{
    lemma_stored_entries_push(before.history(), IndexOp::Delete { id });
    lemma_stored_entries_finite(before.history());
}

/// A successful `delete(id)` undoes a successful `insert(id, ..)`: the index
/// stores exactly what it stored before the insert.
pub proof fn lemma_delete_undoes_insert<T, I: IndexCore<T> + ?Sized>(
    before: &I,
    inserted: &I,
    after: &I,
    id: VectorId,
    vector: Seq<T>,
    metadata: Option<Metadata>,
)
    requires
        !searchable_ids(before.history()).contains(id),
        inserted.history() == before.history().push(IndexOp::Insert { id, vector, metadata }),
        after.history() == inserted.history().push(IndexOp::Delete { id }),
    ensures
        stored_entries(after.history()) == stored_entries(before.history()),
{
    lemma_stored_entries_push(before.history(), IndexOp::Insert { id, vector, metadata });
    lemma_stored_entries_push(inserted.history(), IndexOp::Delete { id });
    assert(stored_entries(after.history()) =~= stored_entries(before.history()));
}

/// Re-inserting an id with the vector and metadata it had undoes a
/// successful `delete(id)`: the index stores exactly what it stored before
/// the delete.
pub proof fn lemma_insert_undoes_delete<T, I: IndexCore<T> + ?Sized>(
    before: &I,
    deleted: &I,
    after: &I,
    id: VectorId,
)
    requires
        searchable_ids(before.history()).contains(id),
        deleted.history() == before.history().push(IndexOp::Delete { id }),
        after.history() == deleted.history().push(IndexOp::Insert {
            id,
            vector: stored_entries(before.history())[id].0,
            metadata: stored_entries(before.history())[id].1,
        }),
    ensures
        stored_entries(after.history()) == stored_entries(before.history()),
{
    let entry = stored_entries(before.history())[id];
    lemma_stored_entries_push(before.history(), IndexOp::Delete { id });
    lemma_stored_entries_push(deleted.history(), IndexOp::Insert { id, vector: entry.0, metadata: entry.1 });
    assert(stored_entries(after.history()) =~= stored_entries(before.history()));
}

/// An index that reports no searchable vectors stores nothing.
pub proof fn lemma_empty_means_nothing_stored<T, I: IndexCore<T> + ?Sized>(index: &I)
    requires
        searchable_ids(index.history()).len() == 0,
    ensures
        stored_entries(index.history()) == Map::<VectorId, (Seq<T>, Option<Metadata>)>::empty(),
{
    lemma_stored_entries_finite(index.history());
    assert(stored_entries(index.history()).dom() =~= Set::<VectorId>::empty());
    assert(stored_entries(index.history()) =~= Map::<VectorId, (Seq<T>, Option<Metadata>)>::empty());
}

/// Two indexes with the same rules and the same history answer every search
/// alike: in particular an index after `insert_batch(items)` and the same
/// index after inserting the items one by one, which leave the same history.
pub proof fn lemma_same_history_same_search<T, I: IndexCore<T> + ?Sized, J: IndexCore<T> + ?Sized>(
    a: &I,
    b: &J,
    query: Seq<T>,
    params: SearchParams,
)
    requires
        a.search_rule() == b.search_rule(),
        a.history() == b.history(),
    ensures
        (a.search_rule())(a.history(), query, params) == (b.search_rule())(b.history(), query, params),
{
}

/// An unfiltered search of the right length under the index metric on an
/// index with nothing searchable (a new index, or one whose every id was
/// deleted) succeeds with no hits.
pub proof fn lemma_search_on_empty_index_is_empty<T, I: IndexCore<T> + ?Sized>(
    index: &I,
    query: Seq<T>,
    params: SearchParams,
)
    requires
        search_rule_allowed(index.search_rule(), index.configured_dim(), index.configured_metric()),
        searchable_ids(index.history()).len() == 0,
        query.len() == index.configured_dim(),
        params.metric == index.configured_metric(),
        params.filter is None,
    ensures
        (index.search_rule())(index.history(), query, params) == Ok::<Seq<Hit>, IqdbError>(Seq::empty()),
{
    let r = (index.search_rule())(index.history(), query, params);
    lemma_stored_entries_finite(index.history());
    assert(searchable_ids(index.history()) =~= Set::<VectorId>::empty());
    if let Ok(hits) = r {
        if hits.len() > 0 {
            assert(searchable_ids(index.history()).contains(hits[0].id));
        }
        assert(hits =~= Seq::<Hit>::empty());
    }
}

} // verus!
