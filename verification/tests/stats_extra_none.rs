//! `IndexStats::extra` does not allocate when empty.

use std::collections::HashMap;

use iqdb_index::IndexStats;

#[test]
fn default_extra_is_none() {
    let stats = IndexStats::default();
    assert!(
        stats.extra.is_none(),
        "Default IndexStats must not allocate an empty HashMap for extra",
    );
}

#[test]
fn extra_some_with_explicit_entries_is_preserved() {
    let mut map = HashMap::new();
    let _ = map.insert("tombstones".to_string(), "42".to_string());

    let stats = IndexStats {
        n_vectors: 100,
        memory_bytes: 1024,
        disk_bytes: None,
        index_type: "test",
        extra: Some(map),
    };

    let entries = stats.extra.as_ref().expect("extra is Some");
    assert_eq!(entries.get("tombstones"), Some(&"42".to_string()));
}

#[test]
fn struct_update_syntax_against_default_yields_none_extra() {
    let stats = IndexStats {
        n_vectors: 42,
        memory_bytes: 4096,
        index_type: "flat",
        ..IndexStats::default()
    };
    assert_eq!(stats.n_vectors, 42);
    assert_eq!(stats.disk_bytes, None);
    assert!(stats.extra.is_none());
}

#[test]
fn default_stats_report_nothing_at_all() {
    let stats = IndexStats::default();
    assert_eq!(stats.n_vectors, 0);
    assert_eq!(stats.memory_bytes, 0);
    assert_eq!(stats.index_type, "");
    assert!(stats.index_type.is_empty());
    assert_eq!(stats.clone(), stats);
}

#[test]
fn version_has_three_non_empty_parts() {
    let version = iqdb_index::VERSION;
    assert_eq!(version.split('.').count(), 3);
    assert!(version.split('.').all(|part| !part.is_empty()));
}
