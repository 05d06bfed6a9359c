//! Declarations of the `iqdb_types` vocabulary that the index traits speak.
//!
//! Ids, metadata, filters and metrics are carried opaquely. Hits, search
//! parameters and the domain error are declared with their fields and
//! variants, so that contracts can say which ids a search returns, how many
//! hits it may return, under which metric, and which error a call reports.

use iqdb_types::{DistanceMetric, Filter, Hit, IqdbError, Metadata, SearchParams, VectorId};

use vstd::prelude::*;

verus! {

/// The identifier of a stored vector (`iqdb_types::VectorId`), carried opaquely.
#[verifier::external_type_specification]
#[verifier::external_body]
pub struct ExVectorId(VectorId);

/// Metadata attached to a vector (`iqdb_types::Metadata`), carried opaquely.
#[verifier::external_type_specification]
#[verifier::external_body]
pub struct ExMetadata(Metadata);

/// A metadata predicate of a search (`iqdb_types::Filter`), carried opaquely.
#[verifier::external_type_specification]
#[verifier::external_body]
pub struct ExFilter(Filter);

/// A distance metric tag (`iqdb_types::DistanceMetric`), carried opaquely.
#[verifier::external_type_specification]
#[verifier::external_body]
pub struct ExDistanceMetric(DistanceMetric);

/// One search result (`iqdb_types::Hit`): its public fields `id`, `distance`
/// and `metadata` are visible to contracts.
#[verifier::external_type_specification]
pub struct ExHit(Hit);

/// The parameters of a search (`iqdb_types::SearchParams`): its public fields
/// `k`, `ef`, `metric` and `filter` are visible to contracts.
#[verifier::external_type_specification]
pub struct ExSearchParams(SearchParams);

/// The shared domain error (`iqdb_types::IqdbError`): its variants are
/// visible to contracts.
#[verifier::external_type_specification]
pub struct ExIqdbError(IqdbError);

} // verus!
