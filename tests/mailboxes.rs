use std::collections::VecDeque;
use zkpool_coordinator::aggregate::ProofAction;
use zkpool_coordinator::queues::{drain_tasks, loop_proof_data, receive_proof, receive_task};
use zkpool_coordinator::status::{TaskStatus, TaskStatusStore};

#[test]
fn tasks_leave_in_arrival_order() {
    let mut q = VecDeque::new();
    receive_task(&mut q, "i1".to_string(), "k1".to_string());
    receive_task(&mut q, "i2".to_string(), "k2".to_string());
    let taken = drain_tasks(&mut q);
    assert!(q.is_empty());
    assert_eq!(taken.len(), 2);
    assert_eq!(taken[0].task_key, "k1");
    assert_eq!(taken[1].instance, "i2");
    assert!(drain_tasks(&mut q).is_empty());
}

#[test]
fn proof_results_are_processed_first_in_first_out() {
    let mut q = VecDeque::new();
    let mut store = TaskStatusStore::new();
    for (id, p) in [("T1#0", "a"), ("T1#1", "b"), ("T1#1", "c"), ("T9", "w"), ("T1#2", "d"), ("T1#3", "e"), ("x#y#z", "m")] {
        receive_proof(&mut q, id.to_string(), p.to_string(), "1".to_string());
    }
    let actions = loop_proof_data(&mut q, &mut store, "demo", 4);
    assert!(q.is_empty());
    assert_eq!(
        actions,
        vec![
            ProofAction::AwaitSegments,
            ProofAction::AwaitSegments,
            ProofAction::Duplicate,
            ProofAction::Submit { task_key: "T9".to_string(), proof: "w".to_string() },
            ProofAction::AwaitSegments,
            ProofAction::Submit { task_key: "T1".to_string(), proof: "e".to_string() },
            ProofAction::Malformed,
        ]
    );
    assert_eq!(store.get_status("demo", "T1", "3"), Some(TaskStatus::Proven));
}
