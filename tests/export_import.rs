use efficiency_cockpit::db::{count_younger, Database, Snapshot};
use efficiency_cockpit::export::{csv_row, export_limit, snapshots_csv, MAX_EXPORT_LIMIT};
use efficiency_cockpit::search::skipped_for_indexing;

fn snap(id: &str, timestamp: i64, note: Option<&str>) -> Snapshot {
    Snapshot {
        id: id.to_string(),
        timestamp,
        active_file: Some("/src/a.rs".to_string()),
        active_directory: Some("/src".to_string()),
        git_branch: None,
        notes: note.map(|n| n.to_string()),
    }
}

#[test]
fn csv_rows_escape_fields_and_format_time() {
    let row = csv_row(&snap("x1", 0, Some("a, \"quoted\" note")));
    assert_eq!(row, "x1,1970-01-01T00:00:00+00:00,/src/a.rs,/src,,\"a, \"\"quoted\"\" note\"\n");
    let doc = snapshots_csv(&vec![snap("x1", 0, None)]);
    assert_eq!(
        doc,
        "id,timestamp,active_file,active_directory,git_branch,notes\nx1,1970-01-01T00:00:00+00:00,/src/a.rs,/src,,\n"
    );
}

#[test]
fn export_limit_zero_means_the_maximum() {
    assert_eq!(export_limit(0), MAX_EXPORT_LIMIT);
    assert_eq!(export_limit(7), 7);
}

#[test]
fn import_skips_ids_already_stored() {
    let mut db = Database::open_in_memory();
    db.insert_snapshot(&snap("a", 1, None)).unwrap();
    let batch = vec![snap("a", 2, None), snap("b", 3, None), snap("b", 4, None), snap("c", 5, None)];
    assert_eq!(db.import_snapshots(&batch), (2, 2));
    assert_eq!(db.snapshot_count(), 3);
}

#[test]
fn younger_snapshots_are_counted() {
    let day = 86_400_000_000i64;
    let snaps = vec![snap("a", 10 * day, None), snap("b", 9 * day + 1, None), snap("c", 3 * day, None)];
    assert_eq!(count_younger(&snaps, 10 * day, day), 2);
    assert_eq!(count_younger(&snaps, 10 * day, 7 * day + 1), 3);
}

#[test]
fn indexing_skips_paths_containing_a_pattern() {
    let patterns = vec!["target".to_string(), ".git".to_string()];
    assert!(skipped_for_indexing("/p/target/debug/x", &patterns));
    assert!(skipped_for_indexing("/p/.gitignore", &patterns));
    assert!(!skipped_for_indexing("/p/src/main.rs", &patterns));
    assert!(!skipped_for_indexing("/p/src/main.rs", &vec![]));
}
