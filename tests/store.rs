use efficiency_cockpit::db::{dir_key_of, new_file_event, new_snapshot, Database, FileEventType, Snapshot};

const HOUR: i64 = 3_600_000_000;

fn now() -> i64 {
    chrono::Utc::now().timestamp_micros()
}

fn snapshot_at(id: &str, timestamp: i64) -> Snapshot {
    Snapshot {
        id: id.to_string(),
        timestamp,
        active_file: None,
        active_directory: None,
        git_branch: None,
        notes: None,
    }
}

#[test]
fn test_open_in_memory() {
    let db = Database::open_in_memory();
    assert!(db.get_recent_snapshots(10).is_empty());
}

#[test]
fn test_insert_and_get_snapshot() {
    let mut db = Database::open_in_memory();

    let mut snapshot = new_snapshot();
    snapshot.active_file = Some("/path/to/file.rs".to_string());
    snapshot.active_directory = Some("/path/to".to_string());
    snapshot.git_branch = Some("main".to_string());
    snapshot.notes = Some("Working on tests".to_string());

    db.insert_snapshot(&snapshot).unwrap();

    let retrieved = db.get_snapshot(&snapshot.id).unwrap();
    assert_eq!(retrieved.id, snapshot.id);
    assert_eq!(retrieved.active_file, snapshot.active_file);
    assert_eq!(retrieved.git_branch, Some("main".to_string()));
}

#[test]
fn test_get_recent_snapshots() {
    let mut db = Database::open_in_memory();

    for i in 0..5 {
        let mut snapshot = new_snapshot();
        snapshot.notes = Some(format!("Snapshot {}", i));
        db.insert_snapshot(&snapshot).unwrap();
    }

    let recent = db.get_recent_snapshots(3);
    assert_eq!(recent.len(), 3);
}

#[test]
fn test_insert_and_get_file_events() {
    let mut db = Database::open_in_memory();

    let event = new_file_event("/src/main.rs".to_string(), FileEventType::Modified);
    db.insert_file_event(&event).unwrap();

    let since = now() - HOUR;
    let until = now() + HOUR;
    let events = db.get_file_events(since, until);

    assert_eq!(events.len(), 1);
    assert_eq!(events[0].path, "/src/main.rs");
    assert_eq!(events[0].event_type, FileEventType::Modified);
}

#[test]
fn test_activity_summary() {
    let mut db = Database::open_in_memory();

    db.insert_file_event(&new_file_event("/src/a.rs".to_string(), FileEventType::Modified)).unwrap();
    db.insert_file_event(&new_file_event("/src/b.rs".to_string(), FileEventType::Modified)).unwrap();
    db.insert_file_event(&new_file_event("/src/c.rs".to_string(), FileEventType::Created)).unwrap();
    db.insert_file_event(&new_file_event("/test/d.rs".to_string(), FileEventType::Deleted)).unwrap();

    let since = now() - HOUR;
    let until = now() + HOUR;
    let summary = db.get_activity_summary(since, until);

    assert_eq!(summary.total_events, 4);
    assert_eq!(summary.files_modified, 2);
    assert_eq!(summary.files_created, 1);
}

#[test]
fn test_cleanup_old_snapshots() {
    let mut db = Database::open_in_memory();

    for _ in 0..10 {
        db.insert_snapshot(&new_snapshot()).unwrap();
    }

    let deleted = db.cleanup_old_snapshots(5);
    assert_eq!(deleted, 5);

    let remaining = db.get_recent_snapshots(100);
    assert_eq!(remaining.len(), 5);
}

#[test]
fn test_file_event_type_conversion() {
    assert_eq!(FileEventType::Created.as_str(), "created");
    assert_eq!(FileEventType::from_str("modified"), Some(FileEventType::Modified));
    assert_eq!(FileEventType::from_str("invalid"), None);
}

#[test]
fn event_type_names_round_trip() {
    for t in [FileEventType::Created, FileEventType::Modified, FileEventType::Deleted, FileEventType::Renamed] {
        assert_eq!(FileEventType::from_str(t.as_str()), Some(t));
    }
    assert_eq!(FileEventType::from_str("Created"), None);
}

#[test]
fn retention_keeps_the_newest_and_is_idempotent() {
    let mut db = Database::open_in_memory();
    for i in 0..10 {
        db.insert_snapshot(&snapshot_at(&format!("s{}", i), 1_000 * i)).unwrap();
    }
    assert_eq!(db.cleanup_old_snapshots(4), 6);
    let kept: Vec<String> = db.get_recent_snapshots(100).into_iter().map(|s| s.id).collect();
    assert_eq!(kept, vec!["s9", "s8", "s7", "s6"]);
    assert_eq!(db.cleanup_old_snapshots(4), 0);
    assert_eq!(db.snapshot_count(), 4);
}

#[test]
fn retention_above_the_row_count_deletes_nothing() {
    let mut db = Database::open_in_memory();
    for i in 0..3 {
        db.insert_snapshot(&snapshot_at(&format!("s{}", i), i)).unwrap();
    }
    assert_eq!(db.cleanup_old_snapshots(10), 0);
    assert_eq!(db.snapshot_count(), 3);
    assert_eq!(db.cleanup_old_snapshots(0), 3);
    assert_eq!(db.snapshot_count(), 0);
}

#[test]
fn recent_snapshots_follow_timestamps_not_insertion() {
    let mut db = Database::open_in_memory();
    db.insert_snapshot(&snapshot_at("middle", 200)).unwrap();
    db.insert_snapshot(&snapshot_at("newest", 300)).unwrap();
    db.insert_snapshot(&snapshot_at("oldest", 100)).unwrap();
    db.insert_snapshot(&snapshot_at("tie", 200)).unwrap();
    let ids: Vec<String> = db.get_recent_snapshots(10).into_iter().map(|s| s.id).collect();
    assert_eq!(ids, vec!["newest", "tie", "middle", "oldest"]);
}

#[test]
fn duplicate_snapshot_id_is_refused() {
    let mut db = Database::open_in_memory();
    db.insert_snapshot(&snapshot_at("same", 1)).unwrap();
    let err = db.insert_snapshot(&snapshot_at("same", 2)).unwrap_err();
    assert!(err.to_string().contains("same"));
    assert_eq!(db.snapshot_count(), 1);
    assert!(db.get_snapshot("other").is_none());
}

#[test]
fn activity_window_is_half_open_and_finds_busiest_directory() {
    let mut db = Database::open_in_memory();
    let paths = [("/src/a.rs", 10), ("/src/b.rs", 20), ("lib/c.rs", 30), ("lib/d.rs", 40), ("lib/e.rs", 50)];
    for (i, (p, t)) in paths.iter().enumerate() {
        let mut e = new_file_event(p.to_string(), FileEventType::Modified);
        e.id = format!("e{}", i);
        e.timestamp = *t;
        db.insert_file_event(&e).unwrap();
    }
    let summary = db.get_activity_summary(10, 50);
    assert_eq!(summary.total_events, 4);
    assert_eq!(summary.most_active_directory, Some("lib".to_string()));
    let empty = db.get_activity_summary(60, 70);
    assert_eq!(empty.total_events, 0);
    assert_eq!(empty.most_active_directory, None);
    assert_eq!(db.get_file_events(10, 50).len(), 5);
    assert_eq!(db.cleanup_old_events(30), 2);
    assert_eq!(db.get_file_events(0, 100).len(), 3);
}

#[test]
fn directory_key_is_the_first_segment() {
    assert_eq!(dir_key_of("/src/main.rs"), "src");
    assert_eq!(dir_key_of("//src/main.rs"), "src");
    assert_eq!(dir_key_of("src/main.rs"), "src");
    assert_eq!(dir_key_of("main.rs"), "main.rs");
    assert_eq!(dir_key_of("/"), "");
}
