use zkpool_coordinator::dispatch::{
    plan_dispatch, ProvenTaskMessage, TaskDispatch, DEFAULT_PROJECT, MAX_DELIVERY_ATTEMPTS, SEG_NUM,
};
use zkpool_coordinator::status::{TaskStatus, TaskStatusStore};

fn task() -> ProvenTaskMessage {
    ProvenTaskMessage { instance: "c0ffee".to_string(), task_key: "ab12".to_string() }
}

#[test]
fn plan_has_one_request_per_segment_in_order() {
    let plan = plan_dispatch(&task(), DEFAULT_PROJECT, SEG_NUM);
    assert_eq!(plan.len(), 4);
    for (i, req) in plan.iter().enumerate() {
        assert_eq!(req.segment_index, i as u32);
        assert_eq!(req.composite_key, format!("ab12#{}", i));
        assert_eq!(req.instance, "c0ffee");
        assert_eq!(req.project_id, "demo");
        assert_eq!(req.routing_tag, "demo");
    }
    assert!(plan_dispatch(&task(), "demo", 0).is_empty());
}

#[test]
fn delivered_segments_become_proving_in_order() {
    let mut store = TaskStatusStore::new();
    let mut d = TaskDispatch::new(&task(), "demo", 4);
    let mut seen = Vec::new();
    while let Some(req) = d.current() {
        seen.push(req.composite_key.clone());
        d.on_delivery(true, &mut store);
    }
    assert!(d.is_done());
    assert_eq!(seen, vec!["ab12#0", "ab12#1", "ab12#2", "ab12#3"]);
    for i in 0..4 {
        assert_eq!(store.get_status("demo", "ab12", &i.to_string()), Some(TaskStatus::Proving));
    }
    assert!(d.abandoned().is_empty());
}

#[test]
fn failed_delivery_is_retried_once_then_abandoned() {
    assert_eq!(MAX_DELIVERY_ATTEMPTS, 2);
    let mut store = TaskStatusStore::new();
    let mut d = TaskDispatch::new(&task(), "demo", 3);
    d.on_delivery(false, &mut store);
    assert_eq!(d.current().unwrap().segment_index, 0);
    d.on_delivery(true, &mut store);
    assert_eq!(d.current().unwrap().segment_index, 1);
    d.on_delivery(false, &mut store);
    d.on_delivery(false, &mut store);
    assert_eq!(d.current().unwrap().segment_index, 2);
    assert_eq!(d.abandoned(), &vec![1u32]);
    d.on_delivery(true, &mut store);
    assert!(d.is_done());
    assert!(d.current().is_none());
    assert_eq!(store.get_status("demo", "ab12", "0"), Some(TaskStatus::Proving));
    assert_eq!(store.get_status("demo", "ab12", "1"), None);
    assert_eq!(store.get_status("demo", "ab12", "2"), Some(TaskStatus::Proving));
}

#[test]
fn redispatch_keeps_proven_segments_proven() {
    let mut store = TaskStatusStore::new();
    store.upsert_status("demo", "ab12", "0", TaskStatus::Proven);
    let mut d = TaskDispatch::new(&task(), "demo", 2);
    d.on_delivery(true, &mut store);
    d.on_delivery(true, &mut store);
    assert_eq!(store.get_status("demo", "ab12", "0"), Some(TaskStatus::Proven));
    assert_eq!(store.get_status("demo", "ab12", "1"), Some(TaskStatus::Proving));
}
