use zkpool_coordinator::codec::decimal_string;
use zkpool_coordinator::status::{
    all_segments_proven, get_task_status, update_task_status, TaskStatus, TaskStatusStore,
};

#[test]
fn status_text_round_trips() {
    assert_eq!(TaskStatus::Proving.as_str(), "proving");
    assert_eq!(TaskStatus::Proven.as_str(), "proven");
    assert_eq!(TaskStatus::from_str("proving"), Some(TaskStatus::Proving));
    assert_eq!(TaskStatus::from_str("proven"), Some(TaskStatus::Proven));
    assert_eq!(TaskStatus::from_str(TaskStatus::Proven.as_str()), Some(TaskStatus::Proven));
}

#[test]
fn unknown_status_text_is_rejected() {
    assert_eq!(TaskStatus::from_str("Proven"), None);
    assert_eq!(TaskStatus::from_str(""), None);
    let mut store = TaskStatusStore::new();
    assert_eq!(
        update_task_status(&mut store, "demo", "T1", "0", "done"),
        Err("Invalid status".to_string())
    );
    assert_eq!(get_task_status(&store, "demo", "T1", "0"), None);
}

#[test]
fn update_creates_and_reads_back() {
    let mut store = TaskStatusStore::new();
    assert_eq!(get_task_status(&store, "demo", "T1", "0"), None);
    assert!(update_task_status(&mut store, "demo", "T1", "0", "proving").is_ok());
    assert_eq!(get_task_status(&store, "demo", "T1", "0"), Some("proving".to_string()));
    assert_eq!(get_task_status(&store, "demo", "T1", "1"), None);
    assert_eq!(get_task_status(&store, "other", "T1", "0"), None);
    assert!(update_task_status(&mut store, "demo", "T1", "0", "proven").is_ok());
    assert_eq!(get_task_status(&store, "demo", "T1", "0"), Some("proven".to_string()));
}

#[test]
fn proven_segment_never_moves_back() {
    let mut store = TaskStatusStore::new();
    store.upsert_status("demo", "T1", "2", TaskStatus::Proven);
    store.upsert_status("demo", "T1", "2", TaskStatus::Proving);
    assert_eq!(store.get_status("demo", "T1", "2"), Some(TaskStatus::Proven));
    assert!(update_task_status(&mut store, "demo", "T1", "2", "proving").is_ok());
    assert_eq!(get_task_status(&store, "demo", "T1", "2"), Some("proven".to_string()));
}

#[test]
fn marking_proven_twice_is_a_no_op() {
    let mut store = TaskStatusStore::new();
    store.upsert_status("demo", "T1", "0", TaskStatus::Proven);
    store.upsert_status("demo", "T1", "0", TaskStatus::Proven);
    assert_eq!(store.get_status("demo", "T1", "0"), Some(TaskStatus::Proven));
    assert_eq!(store.get_status("demo", "T1", "1"), None);
}

#[test]
fn all_proven_needs_every_segment() {
    let mut store = TaskStatusStore::new();
    for i in 0..4u32 {
        store.upsert_status("demo", "T1", &decimal_string(i), TaskStatus::Proving);
    }
    assert!(!all_segments_proven(&store, "demo", "T1", 4));
    for i in 0..3u32 {
        store.upsert_status("demo", "T1", &decimal_string(i), TaskStatus::Proven);
    }
    assert!(!all_segments_proven(&store, "demo", "T1", 4));
    assert!(all_segments_proven(&store, "demo", "T1", 3));
    store.upsert_status("demo", "T1", "3", TaskStatus::Proven);
    assert!(all_segments_proven(&store, "demo", "T1", 4));
    assert!(!all_segments_proven(&store, "demo", "T2", 4));
    assert!(!all_segments_proven(&store, "other", "T1", 4));
}

#[test]
fn missing_segment_is_not_proven() {
    let mut store = TaskStatusStore::new();
    store.upsert_status("demo", "T1", "0", TaskStatus::Proven);
    store.upsert_status("demo", "T1", "1", TaskStatus::Proven);
    store.upsert_status("demo", "T1", "3", TaskStatus::Proven);
    assert!(!all_segments_proven(&store, "demo", "T1", 4));
}

#[test]
fn zero_segments_are_all_proven() {
    let store = TaskStatusStore::new();
    assert!(all_segments_proven(&store, "demo", "T1", 0));
}
