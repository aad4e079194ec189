use efficiency_cockpit::db::{new_file_event, new_snapshot, Database, FileEventType, Snapshot};
use efficiency_cockpit::gatekeeper::{
    sort_by_priority, start_of_day, DailySummary, Gatekeeper, GatekeeperConfig, Nudge, NudgePriority, NudgeType,
};

const MINUTE: i64 = 60_000_000;

fn now() -> i64 {
    chrono::Utc::now().timestamp_micros()
}

fn snap(id: usize, timestamp: i64, dir: &str) -> Snapshot {
    Snapshot {
        id: format!("id{}", id),
        timestamp,
        active_file: None,
        active_directory: Some(dir.to_string()),
        git_branch: None,
        notes: None,
    }
}

fn nudge(message: &str, nudge_type: NudgeType, priority: NudgePriority) -> Nudge {
    Nudge { message: message.to_string(), nudge_type, priority, timestamp: now() }
}

#[test]
fn test_gatekeeper_creation() {
    let db = Database::open_in_memory();
    let gatekeeper = Gatekeeper::new(&db, GatekeeperConfig::default());
    let nudges = gatekeeper.analyze();
    assert!(nudges.is_empty());
}

#[test]
fn test_context_switch_detection() {
    let mut db = Database::open_in_memory();

    for i in 0..10 {
        let mut snapshot = new_snapshot();
        snapshot.active_directory = Some(format!("/project{}", i));
        db.insert_snapshot(&snapshot).unwrap();
    }

    let config = GatekeeperConfig { enable_context_switch_nudges: true, ..Default::default() };

    let gatekeeper = Gatekeeper::new(&db, config);
    let nudges = gatekeeper.analyze();

    assert!(nudges.iter().any(|n| n.nudge_type == NudgeType::ContextSwitch));
}

#[test]
fn test_daily_summary_empty() {
    let db = Database::open_in_memory();
    let gatekeeper = Gatekeeper::new(&db, GatekeeperConfig::default());

    let summary = gatekeeper.daily_summary(now());
    assert_eq!(summary.total_events, 0);
    assert!(summary.to_message().contains("No activity"));
}

#[test]
fn test_daily_summary_with_activity() {
    let mut db = Database::open_in_memory();

    db.insert_file_event(&new_file_event("/src/main.rs".to_string(), FileEventType::Modified)).unwrap();
    db.insert_file_event(&new_file_event("/src/lib.rs".to_string(), FileEventType::Created)).unwrap();

    let gatekeeper = Gatekeeper::new(&db, GatekeeperConfig::default());
    let summary = gatekeeper.daily_summary(now());

    assert!(summary.total_events >= 2);
}

#[test]
fn test_nudge_priority_ordering() {
    let nudges = vec![
        nudge("Low", NudgeType::HighActivity, NudgePriority::Low),
        nudge("High", NudgeType::TakeBreak, NudgePriority::High),
        nudge("Medium", NudgeType::ContextSwitch, NudgePriority::Medium),
    ];

    let mut sorted = nudges.clone();
    sorted.sort_by(|a, b| b.priority.cmp(&a.priority));

    assert_eq!(sorted[0].priority, NudgePriority::High);
    assert_eq!(sorted[1].priority, NudgePriority::Medium);
    assert_eq!(sorted[2].priority, NudgePriority::Low);
}

#[test]
fn test_default_config() {
    let config = GatekeeperConfig::default();
    assert_eq!(config.max_nudges_per_day, 2);
    assert!(config.enable_context_switch_nudges);
    assert_eq!(config.min_focus_time_minutes, 15);
    assert_eq!(config.max_focus_time_minutes, 90);
}

#[test]
fn library_sort_orders_low_high_medium_as_high_medium_low() {
    let nudges = vec![
        nudge("Low", NudgeType::HighActivity, NudgePriority::Low),
        nudge("High", NudgeType::TakeBreak, NudgePriority::High),
        nudge("Medium", NudgeType::ContextSwitch, NudgePriority::Medium),
    ];
    let sorted = sort_by_priority(&nudges);
    let order: Vec<NudgePriority> = sorted.iter().map(|n| n.priority).collect();
    assert_eq!(order, vec![NudgePriority::High, NudgePriority::Medium, NudgePriority::Low]);
}

#[test]
fn library_sort_is_stable_among_equal_priorities() {
    let nudges = vec![
        nudge("first", NudgeType::ContextSwitch, NudgePriority::Low),
        nudge("mid", NudgeType::TakeBreak, NudgePriority::Medium),
        nudge("second", NudgeType::HighActivity, NudgePriority::Low),
    ];
    let sorted = sort_by_priority(&nudges);
    let messages: Vec<&str> = sorted.iter().map(|n| n.message.as_str()).collect();
    assert_eq!(messages, vec!["mid", "first", "second"]);
}

fn focus_store(oldest_minutes_ago: i64) -> Database {
    let mut db = Database::open_in_memory();
    let t = now();
    for i in 0..15 {
        let age = if i == 0 { oldest_minutes_ago * MINUTE } else { (14 - i as i64) * 2 * 1_000_000 };
        db.insert_snapshot(&snap(i, t - age, "/proj")).unwrap();
    }
    db
}

#[test]
fn break_nudge_after_ninety_one_minutes_in_one_directory() {
    let db = focus_store(91);
    let config = GatekeeperConfig { max_focus_time_minutes: 90, ..Default::default() };
    let nudges = Gatekeeper::new(&db, config).analyze();
    assert_eq!(nudges.iter().filter(|n| n.nudge_type == NudgeType::TakeBreak).count(), 1);
    let take_break = nudges.iter().find(|n| n.nudge_type == NudgeType::TakeBreak).unwrap();
    assert_eq!(take_break.priority, NudgePriority::Medium);
    assert!(take_break.message.contains("over 90 minutes"));
}

#[test]
fn no_break_nudge_after_ten_minutes() {
    let db = focus_store(10);
    let config = GatekeeperConfig { max_focus_time_minutes: 90, ..Default::default() };
    let nudges = Gatekeeper::new(&db, config).analyze();
    assert_eq!(nudges.iter().filter(|n| n.nudge_type == NudgeType::TakeBreak).count(), 0);
}

fn switching_store() -> Database {
    let mut db = Database::open_in_memory();
    let t = now();
    let dirs = ["/a", "/b", "/c", "/d", "/e", "/f", "/a", "/b", "/c", "/d"];
    for i in 0..25 {
        let dir = if i >= 15 { dirs[i - 15] } else { "/old" };
        db.insert_snapshot(&snap(i, t - (25 - i as i64) * 5 * MINUTE, dir)).unwrap();
    }
    db
}

#[test]
fn switch_nudge_for_six_directories_when_enabled() {
    let db = switching_store();
    let config = GatekeeperConfig { enable_context_switch_nudges: true, ..Default::default() };
    let nudges = Gatekeeper::new(&db, config).analyze();
    let switches: Vec<&Nudge> = nudges.iter().filter(|n| n.nudge_type == NudgeType::ContextSwitch).collect();
    assert_eq!(switches.len(), 1);
    assert_eq!(switches[0].priority, NudgePriority::Low);
}

#[test]
fn no_switch_nudge_when_disabled() {
    let db = switching_store();
    let config = GatekeeperConfig { enable_context_switch_nudges: false, ..Default::default() };
    let nudges = Gatekeeper::new(&db, config).analyze();
    assert_eq!(nudges.iter().filter(|n| n.nudge_type == NudgeType::ContextSwitch).count(), 0);
}

#[test]
fn burst_and_focus_nudges_at_a_fixed_time_are_ordered_and_capped() {
    let t = 1_000_000 * MINUTE;
    let mut snaps: Vec<Snapshot> = Vec::new();
    for i in 0..20 {
        snaps.push(snap(i, t - 100 * MINUTE + (19 - i as i64) * MINUTE, "/same"));
    }
    let db = Database::open_in_memory();
    let config = GatekeeperConfig { max_nudges_per_day: 1, ..Default::default() };
    let gk = Gatekeeper::new(&db, config);
    let newest_first: Vec<Snapshot> = {
        let mut v = snaps.clone();
        v.sort_by(|a, b| b.timestamp.cmp(&a.timestamp));
        v
    };
    let nudges = gk.analyze_at(&newest_first, t);
    assert_eq!(nudges.len(), 1);
    assert_eq!(nudges[0].nudge_type, NudgeType::TakeBreak);
    let config = GatekeeperConfig { max_nudges_per_day: 5, ..Default::default() };
    let gk = Gatekeeper::new(&db, config);
    let nudges = gk.analyze_at(&newest_first, t);
    let kinds: Vec<NudgeType> = nudges.iter().map(|n| n.nudge_type).collect();
    assert_eq!(kinds, vec![NudgeType::TakeBreak, NudgeType::HighActivity]);
    assert!(nudges.iter().all(|n| n.timestamp == t));
}

#[test]
fn analyze_twice_gives_the_same_nudges() {
    let db = switching_store();
    let gk = Gatekeeper::new(&db, GatekeeperConfig::default());
    let a: Vec<NudgeType> = gk.analyze().iter().map(|n| n.nudge_type).collect();
    let b: Vec<NudgeType> = gk.analyze().iter().map(|n| n.nudge_type).collect();
    assert_eq!(a, b);
}

#[test]
fn summary_message_lists_nonzero_parts() {
    let summary = DailySummary {
        date: 0,
        total_events: 75,
        files_modified: 50,
        files_created: 0,
        most_active_directory: Some("/project".to_string()),
    };
    assert_eq!(summary.to_message(), "75 file events | 50 files modified | Most active: /project");
    let empty = DailySummary { date: 0, total_events: 0, files_modified: 0, files_created: 0, most_active_directory: None };
    assert_eq!(empty.to_message(), "No activity recorded today.");
}

#[test]
fn daily_summary_counts_only_the_utc_day() {
    let day = 86_400_000_000i64;
    let mut db = Database::open_in_memory();
    let times = [3 * day - 1, 3 * day, 3 * day + 5, 4 * day - 1, 4 * day];
    for (i, t) in times.iter().enumerate() {
        let mut e = new_file_event(format!("/x/{}.rs", i), FileEventType::Created);
        e.timestamp = *t;
        db.insert_file_event(&e).unwrap();
    }
    let gk = Gatekeeper::new(&db, GatekeeperConfig::default());
    let summary = gk.daily_summary(3 * day + 12 * 3_600_000_000);
    assert_eq!(summary.total_events, 3);
    assert_eq!(summary.files_created, 3);
    assert_eq!(summary.most_active_directory, Some("x".to_string()));
    assert_eq!(start_of_day(3 * day + 7), 3 * day);
    assert_eq!(start_of_day(-1), -day);
    assert_eq!(start_of_day(-day), -day);
}
