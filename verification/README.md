# iqdb-index

The index-trait layer of the iqdb vector database, written in Verus.

- `src/model.rs` — the abstract model of an index: the history of the
  mutations that succeeded on it, the entries stored and the ids searchable
  after a history, the insert and search rules, and the outcomes the
  contracts allow each call.
- `src/index.rs` — `IndexCore<T>` (the object-safe operational surface:
  `insert`, `delete`, `search`, `len`, `dim`, `metric`, `flush`, `stats`,
  and the default shims `insert_batch`, `search_batch`, `is_empty`) and
  `Index<T>` (typed construction with an associated `Config`). The required
  methods carry contracts over the model (history, dimension, metric, insert
  and search rules, which give success on valid input and the documented
  error otherwise); the default shims are proved against them.
- `src/batch.rs` — the specifications of the batch operations and the laws
  that relate them to the single operations (an insert batch is the insert loop, fail-fast; a batch search is the map of
  the single search, fail-fast; a clean insert batch grows the index by its
  size).
- `src/laws.rs` — laws of the single operations over any `IndexCore`
  implementation (an insert stores its item, a delete removes it, delete
  undoes insert and back, equal histories search alike, a search on an
  empty index is empty).
- `src/stats.rs` — `IndexStats`, the runtime snapshot, with its default.
- `src/outside.rs` — declarations of the `iqdb_types` vocabulary (hits,
  search parameters and the error with their fields and variants).

The traits are generic over the component type of the stored vectors; the
engine and the tests use `f32`.
