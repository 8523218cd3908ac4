use opendev::plan_approval::PlanDecision;
use opendev::task_scheduler::{TaskScheduler, TickCounter};

#[test]
fn test_cancel_task() {
    let mut scheduler = TaskScheduler::new();
    let id = scheduler.schedule_once("cancel_me");
    let cancelled = scheduler.cancel(id);
    assert!(cancelled);
    assert_eq!(scheduler.active_count(), 0);
    assert!(!scheduler.cancel(id));
}

#[test]
fn test_shutdown_cancels_all() {
    let mut scheduler = TaskScheduler::new();
    for i in 0..5 {
        scheduler.schedule_once(&format!("task-{i}"));
    }
    assert_eq!(scheduler.active_count(), 5);

    let cancelled = scheduler.shutdown();
    assert_eq!(cancelled.len(), 5);
    assert_eq!(cancelled.get(&1).unwrap(), "task-0");
    assert_eq!(scheduler.active_count(), 0);
}

#[test]
fn test_cancel_nonexistent_returns_false() {
    let mut scheduler = TaskScheduler::new();
    assert!(!scheduler.cancel(999));
}

#[test]
fn test_default_scheduler() {
    let _scheduler = TaskScheduler::default();
}

#[test]
fn task_scheduler_test_debug_format() {
    let scheduler = TaskScheduler::new();
    let debug_str = format!("{:?}", scheduler);
    assert!(debug_str.contains("TaskScheduler"));
    assert_eq!(debug_str, "TaskScheduler");
}

#[test]
fn identifiers_count_from_one() {
    let mut scheduler = TaskScheduler::new();
    assert_eq!(scheduler.schedule_once("a"), 1);
    assert_eq!(scheduler.schedule_periodic("b"), 2);
    scheduler.complete(1);
    assert_eq!(scheduler.active_count(), 1);
    assert_eq!(scheduler.schedule_once("c"), 3);
    assert!(!scheduler.cancel(1));
    assert!(scheduler.cancel(2));
    scheduler.shutdown();
    assert_eq!(scheduler.schedule_once("d"), 4);
}

#[test]
fn first_tick_is_not_counted() {
    let mut ticks = TickCounter::new();
    assert_eq!(ticks.tick(), None);
    assert_eq!(ticks.tick(), Some(1));
    assert_eq!(ticks.tick(), Some(2));
}

#[test]
fn plan_decisions_are_compared_by_content() {
    let approve = PlanDecision {
        action: "approve_auto".to_string(),
        feedback: String::new(),
    };
    assert_eq!(approve.clone(), approve);
    let modify = PlanDecision {
        action: "modify".to_string(),
        feedback: "shorter".to_string(),
    };
    assert_ne!(approve, modify);
}
