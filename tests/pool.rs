use elastic_pool::pool::{
    completion_reached, on_wake, reserve_slot, resolve_max_threads, should_grow, PoolError,
    WakeDecision,
};
use elastic_pool::registry::WorkerRegistry;

#[test]
fn zero_cap_is_a_configuration_error() {
    assert_eq!(resolve_max_threads(Some(0), 8), Err(PoolError::ConfigurationError));
}

#[test]
fn explicit_cap_is_used_as_given() {
    assert_eq!(resolve_max_threads(Some(4), 8), Ok(4));
    assert_eq!(resolve_max_threads(Some(16), 2), Ok(16));
}

#[test]
fn absent_cap_uses_host_parallelism() {
    assert_eq!(resolve_max_threads(None, 8), Ok(8));
    assert_eq!(resolve_max_threads(None, 0), Err(PoolError::ConfigurationError));
}

#[test]
fn reservation_stops_at_the_cap() {
    assert_eq!(reserve_slot(0, 4), Some(1));
    assert_eq!(reserve_slot(3, 4), Some(4));
    assert_eq!(reserve_slot(4, 4), None);
    assert_eq!(reserve_slot(5, 4), None);
}

#[test]
fn many_submissions_never_pass_the_cap() {
    let max = 4;
    let mut current = 0;
    for _ in 0..10 {
        if let Some(next) = reserve_slot(current, max) {
            current = next;
        }
        assert!(current <= max);
    }
    assert_eq!(current, max);
}

#[test]
fn growth_only_without_idle_workers() {
    assert!(should_grow(0));
    assert!(!should_grow(1));
}

#[test]
fn worker_takes_queued_work_even_after_quit() {
    assert_eq!(on_wake(false, false, false), WakeDecision::TakeTask);
    assert_eq!(on_wake(false, true, false), WakeDecision::TakeTask);
    assert_eq!(on_wake(false, false, true), WakeDecision::TakeTask);
}

#[test]
fn idle_worker_retires_on_timeout_or_quit() {
    assert_eq!(on_wake(true, false, true), WakeDecision::Retire);
    assert_eq!(on_wake(true, true, false), WakeDecision::Retire);
    assert_eq!(on_wake(true, false, false), WakeDecision::Wait);
}

#[test]
fn wait_with_nothing_submitted_returns_at_once() {
    assert!(completion_reached(0, 0));
}

#[test]
fn wait_holds_until_snapshot_is_reached() {
    assert!(!completion_reached(2, 3));
    assert!(completion_reached(3, 3));
    assert!(completion_reached(5, 3));
}

#[test]
fn worker_ids_increase_and_are_not_reused() {
    let mut reg: WorkerRegistry<&str> = WorkerRegistry::new();
    let a = reg.allocate_id().unwrap();
    let b = reg.allocate_id().unwrap();
    assert_eq!((a, b), (0, 1));
    assert_eq!(reg.insert(a, "a"), None);
    assert_eq!(reg.remove(a), Some("a"));
    let c = reg.allocate_id().unwrap();
    assert_eq!(c, 2);
}

#[test]
fn registry_refuses_a_taken_id() {
    let mut reg = WorkerRegistry::new();
    assert_eq!(reg.insert(7, "first"), None);
    assert_eq!(reg.insert(7, "second"), Some("second"));
    assert_eq!(reg.len(), 1);
    assert!(reg.contains(7));
    assert!(!reg.contains(8));
}

#[test]
fn drain_hands_out_each_handle_once() {
    let mut reg = WorkerRegistry::new();
    reg.insert(0, "a");
    reg.insert(1, "b");
    reg.insert(2, "c");
    assert_eq!(reg.remove(1), Some("b"));
    assert_eq!(reg.remove(1), None);
    assert_eq!(reg.drain(), vec!["a", "c"]);
    assert_eq!(reg.len(), 0);
    assert!(reg.drain().is_empty());
    assert_eq!(reg.remove(0), None);
}
