//! # iqdb-index
//!
//! The index-trait layer of the iqdb vector database. It defines the shape
//! every concrete index (flat, HNSW, IVF, ...) implements so the engine can
//! hold them polymorphically, and exposes [`IndexStats`] for runtime
//! introspection. Its only outside dependency is `iqdb_types`, the shared
//! vocabulary (ids, hits, search parameters, metrics, the domain error).
//!
//! - [`IndexCore`] is the object-safe operational surface: `insert`,
//!   `delete`, `search`, `len`, `dim`, `metric`, `flush`, `stats`, plus the
//!   verified default shims `insert_batch`, `search_batch` and `is_empty`.
//! - [`Index`] adds the associated `Config` and the `Self`-returning `new`.
//!
//! Both traits are generic over the component type of the stored vectors.
//! The contracts of the required methods describe an index through the
//! history of the mutations that succeeded on it, its dimension, its metric,
//! and its insert and search rules, which follow the documented outcome of
//! each call; the
//! default shims are proved against those contracts, and the laws that relate
//! the batch operations to the single ones are in [`batch`], those of the
//! single operations in [`laws`]; the model itself is in [`model`].

pub mod batch;
mod index;
pub mod model;
pub mod laws;
mod outside;
mod stats;

pub use crate::index::{Index, IndexCore};
pub use crate::stats::IndexStats;

use vstd::prelude::*;

verus! {

/// The version of this crate (`major.minor.patch`).
pub const VERSION: &'static str = "1.0.0";

} // verus!
