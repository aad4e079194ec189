use efficiency_cockpit::db::FileEventType;
use efficiency_cockpit::watcher::{deduplicate_events, ChangeKind, IgnoreFilter, WatchEvent};

fn filter(patterns: &[&str]) -> IgnoreFilter {
    IgnoreFilter::new(&patterns.iter().map(|p| p.to_string()).collect())
}

fn event(path: &str, event_type: FileEventType) -> WatchEvent {
    WatchEvent { path: path.to_string(), event_type }
}

#[test]
fn test_should_ignore_git() {
    let watcher = filter(&[r"\.git"]);

    assert!(watcher.should_ignore("/project/.git/objects/abc"));
    assert!(watcher.should_ignore("/project/.gitignore"));
    assert!(!watcher.should_ignore("/project/src/main.rs"));
}

#[test]
fn test_should_ignore_target() {
    let watcher = filter(&[r"target"]);

    assert!(watcher.should_ignore("/project/target/debug/main"));
    assert!(!watcher.should_ignore("/project/src/main.rs"));
}

#[test]
fn test_deduplicate_events() {
    let events = vec![
        event("/src/a.rs", FileEventType::Modified),
        event("/src/b.rs", FileEventType::Created),
        event("/src/a.rs", FileEventType::Modified),
    ];

    let deduped = deduplicate_events(events);
    assert_eq!(deduped.len(), 2);
}

#[test]
fn dedup_keeps_the_last_event_per_path() {
    let events = vec![
        event("/a", FileEventType::Created),
        event("/b", FileEventType::Created),
        event("/a", FileEventType::Modified),
        event("/a", FileEventType::Deleted),
        event("/c", FileEventType::Modified),
    ];
    let deduped = deduplicate_events(events);
    assert_eq!(deduped.len(), 3);
    let a = deduped.iter().find(|e| e.path == "/a").unwrap();
    assert_eq!(a.event_type, FileEventType::Deleted);
    let b = deduped.iter().find(|e| e.path == "/b").unwrap();
    assert_eq!(b.event_type, FileEventType::Created);
    assert!(deduplicate_events(Vec::new()).is_empty());
}

#[test]
fn invalid_patterns_are_dropped() {
    let f = filter(&["[invalid", "node_modules"]);
    assert!(f.should_ignore("/p/node_modules/x.js"));
    assert!(!f.should_ignore("/p/[invalid"));
    let none = filter(&[]);
    assert!(!none.should_ignore("/anything"));
}

#[test]
fn notifier_kinds_are_mapped_and_ignored_paths_filtered() {
    let f = filter(&[r"\.git"]);
    let paths = vec!["/p/a.rs".to_string(), "/p/.git/HEAD".to_string()];
    let out = f.process_event(ChangeKind::Create, &paths);
    assert_eq!(out.len(), 1);
    assert_eq!(out[0].path, "/p/a.rs");
    assert_eq!(out[0].event_type, FileEventType::Created);
    let one = vec!["/p/b.rs".to_string()];
    assert_eq!(f.process_event(ChangeKind::Modify, &one)[0].event_type, FileEventType::Modified);
    assert_eq!(f.process_event(ChangeKind::Remove, &one)[0].event_type, FileEventType::Deleted);
    for dropped in [ChangeKind::Rename, ChangeKind::Access, ChangeKind::Any, ChangeKind::Other] {
        assert!(f.process_event(dropped, &one).is_empty());
    }
}

#[test]
fn events_for_paths_skip_ignored_ones() {
    let f = filter(&["target"]);
    let paths = vec!["/p/target/x".to_string(), "/p/src/y.rs".to_string()];
    let out = f.events_for(FileEventType::Modified, &paths);
    assert_eq!(out.len(), 1);
    assert_eq!(out[0].path, "/p/src/y.rs");
}
