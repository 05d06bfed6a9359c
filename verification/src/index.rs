//! The [`IndexCore`] and [`Index`] traits.
//!
//! [`IndexCore`] is the object-safe operational surface every index exposes;
//! the engine stores indexes through `Box<dyn IndexCore<_>>`. [`Index`] is the
//! typed-construction sibling that carries the implementer's associated
//! `Config` and a `Self`-returning `new`.
//!
//! The traits are generic over `T`, the component type of the vectors an
//! index stores (the engine uses single-precision floats).

use std::sync::Arc;

use iqdb_types::{DistanceMetric, Hit, IqdbError, Metadata, SearchParams, VectorId};

use vstd::prelude::*;

use crate::batch::{
    batch_ids, batch_search, clean_batch, fresh_batch, hits_result, hits_views, insert_all,
    lemma_batch_ids_extend, lemma_batch_search_error_persists, lemma_fresh_batch_count,
    lemma_insert_all_error_persists, lemma_insert_ops_extend, query_views,
};
use crate::model::{
    IndexOp, InsertRule, SearchRule, insert_op, insert_ops, insert_outcome_allowed,
    insert_rule_allowed, lemma_inserts_keep_deletions, lemma_stored_entries_push, search_outcome_allowed,
    search_rule_allowed, searchable_ids, was_deleted,
};
use crate::stats::IndexStats;

verus! {

/// The object-safe operational surface of an index.
///
/// The abstract state of an index (see [`crate::model`]) is the history of
/// the mutations that succeeded on it, its configured dimension and metric,
/// and two rules that no mutation changes: the insert rule (what an insert
/// returns after a history) and the search rule (what a search returns after
/// a history). What is stored and what is searchable are functions of the
/// history. The rules follow the documented outcomes of each call
/// ([`crate::model::insert_outcome_allowed`],
/// [`crate::model::search_outcome_allowed`]): success on valid input, and
/// the listed error otherwise.
///
/// Implementers must define `insert`, `delete`, `search`, `len`, `dim`,
/// `metric`, `flush` and `stats`; `insert_batch`, `search_batch` and
/// `is_empty` have default implementations, proved here against the contracts
/// of the required methods, and may be overridden. The contracts of the
/// required methods are obligations on each implementation: an implementation
/// verified against this trait defines the model functions and proves them;
/// any other is trusted to meet them.
///
/// ## Deletion contract
///
/// After a successful `delete(id)` the id is not searchable, and `search`
/// never returns a hit for it, until a later `insert(id, ..)` succeeds. A
/// failed `insert` or `delete` leaves the index unchanged.
///
/// ## Ordering contract
///
/// `search` returns at most `params.k` hits, each for a searchable id,
/// best-first (smallest `Hit.distance` first); for the dot-product metric an
/// implementation stores the negated inner product so that one ordering holds
/// across the index family. Distances are floating-point values, which the
/// contracts do not compare.
pub trait IndexCore<T>: Send + Sync {
    /// The mutations that succeeded on this index since it was built.
    ///
    /// The model functions have default bodies only so that an implementation
    /// compiled without verification need not spell them out; the defaults
    /// leave them unspecified, and an implementation verified against this
    /// trait must define them to meet the contracts.
    closed spec fn history(&self) -> Seq<IndexOp<T>> {
        arbitrary()
    }

    /// The dimensionality this index was configured for.
    closed spec fn configured_dim(&self) -> nat {
        arbitrary()
    }

    /// The distance metric this index was configured for.
    closed spec fn configured_metric(&self) -> DistanceMetric {
        arbitrary()
    }

    /// The rule that decides what an insert returns after a given history.
    closed spec fn insert_rule(&self) -> InsertRule<T> {
        arbitrary()
    }

    /// The rule that decides what a search returns after a given history.
    closed spec fn search_rule(&self) -> SearchRule<T> {
        arbitrary()
    }

    /// Insert one vector into the index.
    ///
    /// The result is the insert rule applied to the history and the item,
    /// which follows the insert contract: a vector whose length differs from
    /// the index dimension is refused with `DimensionMismatch`, an id that is
    /// already searchable with `Duplicate`, and a new id of the right length
    /// is accepted (an id deleted earlier may instead be refused with
    /// `Duplicate`). On success the item is stored under its id, exactly as
    /// given; on failure the index is unchanged.
    fn insert(&mut self, id: VectorId, vector: Arc<[T]>, metadata: Option<Metadata>) -> (r: Result<(), IqdbError>)
        ensures
            final(self).configured_dim() == old(self).configured_dim(),
            final(self).configured_metric() == old(self).configured_metric(),
            final(self).insert_rule() == old(self).insert_rule(),
            final(self).search_rule() == old(self).search_rule(),
            insert_rule_allowed(old(self).insert_rule(), old(self).configured_dim()),
            r == (old(self).insert_rule())(old(self).history(), id, (*vector)@, metadata),
            insert_outcome_allowed(old(self).configured_dim(), old(self).history(), id, (*vector)@, r),
            r is Ok ==> final(self).history() == old(self).history().push(
                IndexOp::Insert { id: id, vector: (*vector)@, metadata: metadata },
            ),
            r is Err ==> final(self).history() == old(self).history(),
    ;

    /// Insert many vectors, one after the other, stopping at the first error.
    ///
    /// The outcome is [`insert_all`] under the insert rule: each item is
    /// inserted unchanged, in order; when every insert succeeds the batch
    /// returns `Ok` and all items are stored, so the item ids were distinct,
    /// new, and of the index dimension, and `len` grew by the number of items;
    /// when an insert fails the batch returns that insert's error, the items
    /// before it stay inserted and no later item is inserted. A clean batch
    /// (fresh items, none deleted earlier) is accepted whole.
    fn insert_batch(&mut self, items: Vec<(VectorId, Arc<[T]>, Option<Metadata>)>) -> (r: Result<(), IqdbError>)
        ensures
            final(self).configured_dim() == old(self).configured_dim(),
            final(self).configured_metric() == old(self).configured_metric(),
            final(self).insert_rule() == old(self).insert_rule(),
            final(self).search_rule() == old(self).search_rule(),
            insert_all(old(self).insert_rule(), old(self).history(), items@) == (final(self).history(), r),
            clean_batch(old(self).history(), old(self).configured_dim(), items@) ==> r is Ok,
            r is Ok ==> final(self).history() == old(self).history() + insert_ops(items@),
            r is Ok ==> fresh_batch(searchable_ids(old(self).history()), old(self).configured_dim(), items@),
            r is Err ==> exists|n: int|
                0 <= n < items@.len()
                && final(self).history() == old(self).history() + insert_ops(#[trigger] items@.take(n))
                && fresh_batch(searchable_ids(old(self).history()), old(self).configured_dim(), items@.take(n))
                && r == (old(self).insert_rule())(final(self).history(), items@[n].0, (*items@[n].1)@, items@[n].2)
                && insert_outcome_allowed(old(self).configured_dim(), final(self).history(), items@[n].0, (*items@[n].1)@, r),
    {
        let ghost h0 = self.history();
        let ghost rule = self.insert_rule();
        let ghost dim = self.configured_dim();
        let ghost all = items@;
        proof {
            assert(all.take(0) =~= Seq::<(VectorId, Arc<[T]>, Option<Metadata>)>::empty());
            assert(h0 + insert_ops(all.take(0)) =~= h0);
        }
        for item in it: items.into_iter()
            invariant
                it.seq() == all,
                self.configured_dim() == dim,
                self.configured_metric() == old(self).configured_metric(),
                self.insert_rule() == rule,
                self.search_rule() == old(self).search_rule(),
                h0 == old(self).history(),
                rule == old(self).insert_rule(),
                dim == old(self).configured_dim(),
                insert_all(rule, h0, all.take(it.index() as int)) == (self.history(), Ok::<(), IqdbError>(())),
                self.history() == h0 + insert_ops(all.take(it.index() as int)),
                fresh_batch(searchable_ids(h0), dim, all.take(it.index() as int)),
        {
            let ghost k = it.index() as int;
            let ghost prior = self.history();
            let (id, vector, metadata) = item;
            let outcome = self.insert(id, vector, metadata);
            proof {
                assert(all.take(k + 1).drop_last() =~= all.take(k));
                assert(all.take(k + 1).last() == all[k]);
                lemma_insert_ops_extend(all, k);
                lemma_batch_ids_extend(all, k);
                lemma_stored_entries_push(h0, insert_op(all[k]));
                lemma_fresh_prefix(h0, dim, all, k);
            }
            match outcome {
                Ok(()) => {
                    proof {
                        assert(h0 + insert_ops(all.take(k + 1)) =~= prior.push(insert_op(all[k])));
                    }
                },
                Err(e) => {
                    proof {
                        lemma_insert_all_error_persists(rule, h0, all, k + 1);
                        if clean_batch(h0, dim, all) {
                            lemma_clean_item_accepted(h0, dim, all, k);
                        }
                    }
                    return Err(e);
                },
            }
        }
        proof {
            assert(all.take(all.len() as int) =~= all);
        }
        Ok(())
    }

    /// Remove the vector identified by `id` from the search space.
    ///
    /// A searchable id is removed; an id that is not searchable is refused
    /// with `NotFound`, and the index is unchanged.
    fn delete(&mut self, id: &VectorId) -> (r: Result<(), IqdbError>)
        ensures
            final(self).configured_dim() == old(self).configured_dim(),
            final(self).configured_metric() == old(self).configured_metric(),
            final(self).insert_rule() == old(self).insert_rule(),
            final(self).search_rule() == old(self).search_rule(),
            searchable_ids(old(self).history()).contains(*id) ==> r is Ok,
            !searchable_ids(old(self).history()).contains(*id) ==> r == Err::<(), IqdbError>(IqdbError::NotFound),
            r is Ok ==> final(self).history() == old(self).history().push(IndexOp::Delete { id: *id }),
            r is Err ==> final(self).history() == old(self).history(),
    ;

    /// Run a top-`k` similarity search.
    ///
    /// The result is the search rule applied to the history, the query and
    /// the parameters, which follows the search contract: a query whose
    /// length differs from the index dimension is refused with
    /// `DimensionMismatch`, a search under another metric with
    /// `InvalidMetric`; an unfiltered search of the right length under the
    /// index metric succeeds, with at most `params.k` hits, each for a
    /// searchable id.
    fn search(&self, query: &[T], params: &SearchParams) -> (r: Result<Vec<Hit>, IqdbError>)
        ensures
            search_rule_allowed(self.search_rule(), self.configured_dim(), self.configured_metric()),
            hits_result(r) == (self.search_rule())(self.history(), query@, *params),
            search_outcome_allowed(
                self.configured_dim(),
                self.configured_metric(),
                self.history(),
                query@,
                *params,
                hits_result(r),
            ),
    ;

    /// Run a batch of searches with shared `params`, in input order, stopping
    /// at the first error.
    ///
    /// The outcome is [`batch_search`] of the queries under the search rule:
    /// the per-query search results in order when all of them succeed, else
    /// the error of the first query that fails.
    fn search_batch(&self, queries: &[&[T]], params: &SearchParams) -> (r: Result<Vec<Vec<Hit>>, IqdbError>)
        ensures
            r matches Ok(out) ==> batch_search(|q: Seq<T>| (self.search_rule())(self.history(), q, *params), query_views(queries@))
                == Ok::<Seq<Seq<Hit>>, IqdbError>(hits_views(out@)),
            r matches Err(e) ==> batch_search(|q: Seq<T>| (self.search_rule())(self.history(), q, *params), query_views(queries@))
                == Err::<Seq<Seq<Hit>>, IqdbError>(e),
    {
        let ghost qs = query_views(queries@);
        let mut out: Vec<Vec<Hit>> = Vec::with_capacity(queries.len());
        let mut i: usize = 0;
        proof {
            assert(qs.take(0) =~= Seq::<Seq<T>>::empty());
            assert(hits_views(out@) =~= Seq::<Seq<Hit>>::empty());
        }
        while i < queries.len()
            invariant
                i <= queries@.len(),
                qs == query_views(queries@),
                batch_search(|q: Seq<T>| (self.search_rule())(self.history(), q, *params), qs.take(i as int))
                    == Ok::<Seq<Seq<Hit>>, IqdbError>(hits_views(out@)),
            decreases queries@.len() - i,
        {
            let query: &[T] = queries[i];
            proof {
                assert(qs.take(i + 1).drop_last() =~= qs.take(i as int));
            }
            match self.search(query, params) {
                Ok(hits) => {
                    let ghost before = out@;
                    let ghost found = hits@;
                    out.push(hits);
                    proof {
                        assert(hits_views(out@) =~= hits_views(before).push(found));
                    }
                },
                Err(e) => {
                    proof {
                        lemma_batch_search_error_persists(|q: Seq<T>| (self.search_rule())(self.history(), q, *params), qs, i + 1);
                    }
                    return Err(e);
                },
            }
            i = i + 1;
        }
        proof {
            assert(qs.take(i as int) =~= qs);
        }
        Ok(out)
    }

    /// The number of vectors currently searchable in the index.
    fn len(&self) -> (r: usize)
        ensures
            r == searchable_ids(self.history()).len(),
    ;

    /// Returns `true` when the index holds no searchable vectors.
    fn is_empty(&self) -> (r: bool)
        ensures
            r == (searchable_ids(self.history()).len() == 0),
    {
        self.len() == 0
    }

    /// The dimensionality of vectors this index was configured for.
    fn dim(&self) -> (r: usize)
        ensures
            r == self.configured_dim(),
    ;

    /// The distance metric this index was configured for.
    fn metric(&self) -> (r: DistanceMetric)
        ensures
            r == self.configured_metric(),
    ;

    /// Flush any pending state to durable storage; the model is unchanged.
    fn flush(&mut self) -> (r: Result<(), IqdbError>)
        ensures
            final(self).history() == old(self).history(),
            final(self).configured_dim() == old(self).configured_dim(),
            final(self).configured_metric() == old(self).configured_metric(),
            final(self).insert_rule() == old(self).insert_rule(),
            final(self).search_rule() == old(self).search_rule(),
    ;

    /// A runtime snapshot of the index's state; `n_vectors` counts the
    /// searchable vectors.
    fn stats(&self) -> (r: IndexStats)
        ensures
            r.n_vectors == searchable_ids(self.history()).len(),
    ;
}

/// Typed construction for an index.
///
/// Not object-safe by design: the engine constructs a concrete index through
/// [`Index::new`] and then holds it as `Box<dyn IndexCore<_>>`.
pub trait Index<T>: IndexCore<T> {
    /// Configuration consumed at construction time.
    type Config: Default + Clone;

    /// Build a fresh, empty index of `dim`-dimensional vectors under `metric`.
    ///
    /// A zero dimension, or a configuration that does not describe a working
    /// index, is refused with `InvalidConfig`. A new index follows the insert
    /// and search contracts from the start.
    fn new(dim: usize, metric: DistanceMetric, config: Self::Config) -> (r: Result<Self, IqdbError>)
        where
            Self: Sized,
        ensures
            dim == 0 ==> r is Err,
            r is Err ==> r matches Err(IqdbError::InvalidConfig { .. }),
            r matches Ok(index) ==> index.configured_dim() == dim
                && index.configured_metric() == metric
                && index.history() == Seq::<IndexOp<T>>::empty()
                && insert_rule_allowed(index.insert_rule(), index.configured_dim())
                && search_rule_allowed(index.search_rule(), index.configured_dim(), index.configured_metric()),
    ;
}

/// In a clean batch every item, when its turn comes after the earlier items
/// were inserted, has the index dimension, a new id, and an id never deleted.
proof fn lemma_clean_item_accepted<T>(
    h0: Seq<IndexOp<T>>,
    dim: nat,
    all: Seq<(VectorId, Arc<[T]>, Option<Metadata>)>,
    k: int,
)
    requires
        0 <= k < all.len(),
        clean_batch(h0, dim, all),
    ensures
        (*all[k].1)@.len() == dim,
        !searchable_ids(h0 + insert_ops(all.take(k))).contains(all[k].0),
        !was_deleted(h0 + insert_ops(all.take(k)), all[k].0),
{
    let prefix = all.take(k);
    assert(fresh_batch(searchable_ids(h0), dim, prefix));
    lemma_fresh_batch_count(h0, dim, prefix);
    assert(!searchable_ids(h0).contains(all[k].0));
    if batch_ids(prefix).contains(all[k].0) {
        let i = choose|i: int| 0 <= i < prefix.len() && #[trigger] prefix[i].0 == all[k].0;
        assert(all[i].0 == all[k].0);
    }
    assert(!was_deleted(h0, all[k].0));
    assert forall|i: int| 0 <= i < insert_ops(prefix).len() implies #[trigger] insert_ops(prefix)[i] is Insert by {}
    lemma_inserts_keep_deletions(h0, insert_ops(prefix), all[k].0);
}

/// One more accepted item keeps a batch prefix fresh: an insert that succeeds
/// had the index dimension and a new id.
proof fn lemma_fresh_prefix<T>(
    h0: Seq<IndexOp<T>>,
    dim: nat,
    all: Seq<(VectorId, Arc<[T]>, Option<Metadata>)>,
    k: int,
)
    requires
        0 <= k < all.len(),
        fresh_batch(searchable_ids(h0), dim, all.take(k)),
    ensures
        (*all[k].1)@.len() == dim
            && !searchable_ids(h0 + insert_ops(all.take(k))).contains(all[k].0)
            ==> fresh_batch(searchable_ids(h0), dim, all.take(k + 1)),
{
    let prefix = all.take(k);
    if (*all[k].1)@.len() == dim && !searchable_ids(h0 + insert_ops(prefix)).contains(all[k].0) {
        crate::batch::lemma_fresh_batch_count(h0, dim, prefix);
        assert(!batch_ids(prefix).contains(all[k].0));
        assert(!searchable_ids(h0).contains(all[k].0));
        let longer = all.take(k + 1);
        assert forall|i: int, j: int| 0 <= i < j < longer.len() implies #[trigger] longer[i].0 != #[trigger] longer[j].0 by {
            if j == k {
                assert(prefix[i].0 == longer[i].0);
                assert(batch_ids(prefix).contains(prefix[i].0));
            } else {
                assert(prefix[i].0 != prefix[j].0);
            }
        }
    }
}

} // verus!
