//! Specifications of the batch operations and the laws that relate them to
//! the single-item operations.

use std::sync::Arc;

use iqdb_types::{Hit, IqdbError, Metadata, VectorId};

use crate::model::{
    IndexOp, InsertRule, insert_op, insert_ops, lemma_stored_entries_finite, lemma_stored_entries_push,
    searchable_ids, was_deleted,
};

use vstd::prelude::*;


verus! {

/// The ids named by a batch of insert items.
pub open spec fn batch_ids<T>(items: Seq<(VectorId, Arc<[T]>, Option<Metadata>)>) -> Set<VectorId> {
    Set::new(|id: VectorId| exists|i: int| 0 <= i < items.len() && #[trigger] items[i].0 == id)
}

/// A batch that inserts cleanly into an index whose searchable ids are
/// `present` and whose dimension is `dim`: every vector has that dimension,
/// no item id is already present, and the item ids are pairwise distinct.
pub open spec fn fresh_batch<T>(
    present: Set<VectorId>,
    dim: nat,
    items: Seq<(VectorId, Arc<[T]>, Option<Metadata>)>,
) -> bool {
    &&& forall|i: int| 0 <= i < items.len() ==> (*(#[trigger] items[i]).1)@.len() == dim
    &&& forall|i: int| 0 <= i < items.len() ==> !present.contains(#[trigger] items[i].0)
    &&& forall|i: int, j: int| 0 <= i < j < items.len() ==> #[trigger] items[i].0 != #[trigger] items[j].0
}

/// Extending a batch by one item adds that item's id to the batch ids.
pub proof fn lemma_batch_ids_extend<T>(items: Seq<(VectorId, Arc<[T]>, Option<Metadata>)>, k: int)
    requires
        0 <= k < items.len(),
    ensures
        batch_ids(items.take(k + 1)) == batch_ids(items.take(k)).insert(items[k].0),
{
    let longer = items.take(k + 1);
    let shorter = items.take(k);
    assert forall|id: VectorId| batch_ids(longer).contains(id) implies batch_ids(shorter).insert(items[k].0).contains(id) by {
        let i = choose|i: int| 0 <= i < longer.len() && #[trigger] longer[i].0 == id;
        if i < k {
            assert(shorter[i].0 == id);
        }
    }
    assert forall|id: VectorId| batch_ids(shorter).insert(items[k].0).contains(id) implies batch_ids(longer).contains(id) by {
        if id == items[k].0 {
            assert(longer[k].0 == id);
        } else {
            let i = choose|i: int| 0 <= i < shorter.len() && #[trigger] shorter[i].0 == id;
            assert(longer[i].0 == id);
        }
    }
    assert(batch_ids(longer) =~= batch_ids(shorter).insert(items[k].0));
}

/// A batch that inserts cleanly after `history` in an index of dimension
/// `dim`: fresh, and with no item id deleted earlier in the history.
pub open spec fn clean_batch<T>(
    history: Seq<IndexOp<T>>,
    dim: nat,
    items: Seq<(VectorId, Arc<[T]>, Option<Metadata>)>,
) -> bool {
    &&& fresh_batch(searchable_ids(history), dim, items)
    &&& forall|i: int| 0 <= i < items.len() ==> !was_deleted(history, (#[trigger] items[i]).0)
}

/// The contents of a search result.
pub open spec fn hits_result(r: Result<Vec<Hit>, IqdbError>) -> Result<Seq<Hit>, IqdbError> {
    match r {
        Ok(hits) => Ok(hits@),
        Err(e) => Err(e),
    }
}

/// The contents of a batch of queries.
pub open spec fn query_views<T>(queries: Seq<&[T]>) -> Seq<Seq<T>> {
    queries.map_values(|q: &[T]| q@)
}

/// The contents of a batch of search results.
pub open spec fn hits_views(out: Seq<Vec<Hit>>) -> Seq<Seq<Hit>> {
    out.map_values(|hits: Vec<Hit>| hits@)
}

/// The outcome of running a search whose per-query result is `search` over
/// `queries` in order, stopping at the first error: the per-query results when
/// every search succeeds, else the error of the first query that fails.
pub open spec fn batch_search<T>(
    search: spec_fn(Seq<T>) -> Result<Seq<Hit>, IqdbError>,
    queries: Seq<Seq<T>>,
) -> Result<Seq<Seq<Hit>>, IqdbError>
    decreases queries.len(),
{
    if queries.len() == 0 {
        Ok(Seq::empty())
    } else {
        match batch_search(search, queries.drop_last()) {
            Err(e) => Err(e),
            Ok(prefix) => match search(queries.last()) {
                Err(e) => Err(e),
                Ok(hits) => Ok(prefix.push(hits)),
            },
        }
    }
}

/// Once a prefix of a query batch fails, the whole batch fails with the same
/// error.
pub proof fn lemma_batch_search_error_persists<T>(
    search: spec_fn(Seq<T>) -> Result<Seq<Hit>, IqdbError>,
    queries: Seq<Seq<T>>,
    n: int,
)
    requires
        0 <= n <= queries.len(),
        batch_search(search, queries.take(n)) is Err,
    ensures
        batch_search(search, queries) == batch_search(search, queries.take(n)),
    decreases queries.len(),
{
    if queries.len() == n {
        assert(queries.take(n) =~= queries);
    } else {
        let shorter = queries.drop_last();
        assert(shorter.take(n) =~= queries.take(n));
        lemma_batch_search_error_persists(search, shorter, n);
    }
}

/// A batch search equals mapping the single search over the queries in
/// order: it succeeds exactly when every query's search succeeds, and then
/// holds one result per query, in input order; when it fails, its error is
/// that of the first query whose search fails.
pub proof fn lemma_batch_search_is_map<T>(
    search: spec_fn(Seq<T>) -> Result<Seq<Hit>, IqdbError>,
    queries: Seq<Seq<T>>,
)
    ensures
        batch_search(search, queries) is Ok <==> forall|i: int|
            0 <= i < queries.len() ==> #[trigger] search(queries[i]) is Ok,
        batch_search(search, queries) matches Ok(out) ==> {
            &&& out.len() == queries.len()
            &&& forall|i: int| 0 <= i < queries.len() ==> #[trigger] search(queries[i]) == Ok::<Seq<Hit>, IqdbError>(out[i])
        },
        batch_search(search, queries) matches Err(e) ==> exists|i: int| {
            &&& 0 <= i < queries.len()
            &&& #[trigger] search(queries[i]) == Err::<Seq<Hit>, IqdbError>(e)
            &&& forall|j: int| 0 <= j < i ==> #[trigger] search(queries[j]) is Ok
        },
    decreases queries.len(),
{
    if queries.len() > 0 {
        let shorter = queries.drop_last();
        let n = queries.len() - 1;
        lemma_batch_search_is_map(search, shorter);
        assert forall|i: int| 0 <= i < shorter.len() implies shorter[i] == queries[i] by {}
        match batch_search(search, shorter) {
            Err(e) => {
                let i = choose|i: int| {
                    &&& 0 <= i < shorter.len()
                    &&& #[trigger] search(shorter[i]) == Err::<Seq<Hit>, IqdbError>(e)
                    &&& forall|j: int| 0 <= j < i ==> #[trigger] search(shorter[j]) is Ok
                };
                assert(search(queries[i]) == Err::<Seq<Hit>, IqdbError>(e));
                assert forall|j: int| 0 <= j < i implies #[trigger] search(queries[j]) is Ok by {
                    assert(search(shorter[j]) is Ok);
                }
            },
            Ok(prefix) => {
                assert(queries.last() == queries[n]);
                match search(queries.last()) {
                    Err(e) => {
                        assert forall|j: int| 0 <= j < n implies #[trigger] search(queries[j]) is Ok by {
                            assert(search(shorter[j]) is Ok);
                        }
                    },
                    Ok(hits) => {
                        assert forall|i: int| 0 <= i < queries.len() implies #[trigger] search(queries[i]) == Ok::<Seq<Hit>, IqdbError>(prefix.push(hits)[i]) by {
                            if i < n {
                                assert(search(shorter[i]) == Ok::<Seq<Hit>, IqdbError>(prefix[i]));
                            }
                        }
                    },
                }
            },
        }
    }
}

/// The outcome of inserting `items` one after the other, starting from
/// `history`, under the insert rule `rule`, stopping at the first refusal:
/// the history afterwards and the result. Each item is handed to the rule
/// unchanged, in order; an accepted item is appended to the history; the
/// first refused item ends the batch with the rule's error, and no later item
/// is looked at.
pub open spec fn insert_all<T>(
    rule: InsertRule<T>,
    history: Seq<IndexOp<T>>,
    items: Seq<(VectorId, Arc<[T]>, Option<Metadata>)>,
) -> (Seq<IndexOp<T>>, Result<(), IqdbError>)
    decreases items.len(),
{
    if items.len() == 0 {
        (history, Ok(()))
    } else {
        let (before, outcome) = insert_all(rule, history, items.drop_last());
        match outcome {
            Err(e) => (before, Err(e)),
            Ok(()) => {
                let item = items.last();
                match rule(before, item.0, (*item.1)@, item.2) {
                    Ok(()) => (before.push(insert_op(item)), Ok(())),
                    Err(e) => (before, Err(e)),
                }
            },
        }
    }
}

/// Once a prefix of an insert batch is refused, the whole batch ends there,
/// with the same history and error.
pub proof fn lemma_insert_all_error_persists<T>(
    rule: InsertRule<T>,
    history: Seq<IndexOp<T>>,
    items: Seq<(VectorId, Arc<[T]>, Option<Metadata>)>,
    n: int,
)
    requires
        0 <= n <= items.len(),
        insert_all(rule, history, items.take(n)).1 is Err,
    ensures
        insert_all(rule, history, items) == insert_all(rule, history, items.take(n)),
    decreases items.len(),
{
    if items.len() == n {
        assert(items.take(n) =~= items);
    } else {
        let shorter = items.drop_last();
        assert(shorter.take(n) =~= items.take(n));
        lemma_insert_all_error_persists(rule, history, shorter, n);
    }
}

/// The history entries of a batch prefix grow by one item at a time.
pub proof fn lemma_insert_ops_extend<T>(items: Seq<(VectorId, Arc<[T]>, Option<Metadata>)>, k: int)
    requires
        0 <= k < items.len(),
    ensures
        insert_ops(items.take(k + 1)) == insert_ops(items.take(k)).push(insert_op(items[k])),
{
    assert(insert_ops(items.take(k + 1)) =~= insert_ops(items.take(k)).push(insert_op(items[k])));
}

/// Inserting a batch of fresh items after `history` makes exactly the item
/// ids searchable in addition, so the number of searchable ids grows by the
/// number of items.
pub proof fn lemma_fresh_batch_count<T>(
    history: Seq<IndexOp<T>>,
    dim: nat,
    items: Seq<(VectorId, Arc<[T]>, Option<Metadata>)>,
)
    requires
        fresh_batch(searchable_ids(history), dim, items),
    ensures
        searchable_ids(history + insert_ops(items)) == searchable_ids(history).union(batch_ids(items)),
        searchable_ids(history + insert_ops(items)).finite(),
        searchable_ids(history + insert_ops(items)).len() == searchable_ids(history).len() + items.len(),
    decreases items.len(),
{
    lemma_stored_entries_finite(history);
    lemma_stored_entries_finite(history + insert_ops(items));
    if items.len() == 0 {
        assert(history + insert_ops(items) =~= history);
        assert(searchable_ids(history).union(batch_ids(items)) =~= searchable_ids(history));
    } else {
        let n = items.len() - 1;
        let shorter = items.take(n);
        assert(fresh_batch(searchable_ids(history), dim, shorter));
        lemma_fresh_batch_count(history, dim, shorter);
        lemma_batch_ids_extend(items, n);
        lemma_insert_ops_extend(items, n);
        assert(items.take(n + 1) =~= items);
        assert(history + insert_ops(items) =~= (history + insert_ops(shorter)).push(insert_op(items[n])));
        lemma_stored_entries_push(history + insert_ops(shorter), insert_op(items[n]));
        assert(!batch_ids(shorter).contains(items[n].0)) by {
            if batch_ids(shorter).contains(items[n].0) {
                let i = choose|i: int| 0 <= i < shorter.len() && #[trigger] shorter[i].0 == items[n].0;
                assert(items[i].0 == items[n].0);
            }
        }
        assert(searchable_ids(history + insert_ops(items))
            =~= searchable_ids(history + insert_ops(shorter)).insert(items[n].0));
        assert(searchable_ids(history).union(batch_ids(items))
            =~= searchable_ids(history).union(batch_ids(shorter)).insert(items[n].0));
    }
}

} // verus!
