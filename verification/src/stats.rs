//! Index introspection.

use std::collections::HashMap;

use vstd::prelude::*;

verus! {

/// A runtime snapshot of an index's state.
#[derive(Debug, Clone, PartialEq, Eq)]
pub struct IndexStats {
    /// The number of vectors currently searchable in the index.
    pub n_vectors: usize,
    /// Approximate resident-memory footprint of the index, in bytes.
    pub memory_bytes: usize,
    /// On-disk footprint in bytes; `None` for purely in-memory indexes.
    pub disk_bytes: Option<usize>,
    /// A short, stable identifier for the index implementation.
    pub index_type: &'static str,
    /// Index-specific counters that do not fit the shared shape.
    pub extra: Option<HashMap<String, String>>,
}

impl Default for IndexStats {
    fn default() -> (s: Self)
        ensures
            s.n_vectors == 0,
            s.memory_bytes == 0,
            s.disk_bytes is None,
            s.index_type@.len() == 0,
            s.extra is None,
    {
        proof {
            reveal_strlit("");
        }
        IndexStats { n_vectors: 0, memory_bytes: 0, disk_bytes: None, index_type: "", extra: None }
    }
}

} // verus!
