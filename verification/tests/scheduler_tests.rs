use chainz::errors::SchedulerError;
use chainz::scheduler::{backoff, Completion, Scheduler};
use chainz::task::{ScheduleType, Task};

const SEC: u64 = 1_000_000_000;

fn task(id: &str, schedule: ScheduleType, cmd: &str, retries: u16) -> Task {
    Task::new(id, schedule, cmd, retries)
}

fn has_task(s: &Scheduler, id: &str) -> bool {
    s.list_tasks().iter().any(|t| t.task_id == id)
}

#[test]
fn duplicate_add_is_rejected_and_original_kept() {
    let mut s = Scheduler::new();
    assert!(s.add_task(task("a", ScheduleType::Once, "echo one", 0), 5).is_ok());
    let r = s.add_task(task("a", ScheduleType::Interval(SEC), "echo two", 3), 9);
    assert_eq!(r, Err(SchedulerError::TaskAlreadyExists));
    let tasks = s.list_tasks();
    assert_eq!(tasks.len(), 1);
    assert_eq!(tasks[0].cmd, "echo one");
    assert!(matches!(tasks[0].schedule, ScheduleType::Once));
    assert_eq!(tasks[0].retries, 0);
}

#[test]
fn add_arms_first_instance_at_start_time() {
    let mut s = Scheduler::new();
    s.add_task(task("a", ScheduleType::Once, "echo hi", 0), 50).unwrap();
    assert!(s.pop_due(49).is_none());
    let inst = s.pop_due(50).unwrap();
    assert_eq!(inst.task.task_id, "a");
    assert_eq!(inst.exec_at, 50);
    assert_eq!(inst.retry_num, 0);
    assert_eq!(inst.instance_id, "a_0");
}

#[test]
fn once_task_removed_after_first_success() {
    let mut s = Scheduler::new();
    s.add_task(task("job1", ScheduleType::Once, "echo hi", 0), 0).unwrap();
    assert!(has_task(&s, "job1"));
    let inst = s.pop_due(0).unwrap();
    let c = s.complete_instance(&inst, true, 0);
    assert_eq!(c, Completion::Finished);
    assert!(!has_task(&s, "job1"));
    assert!(s.pop_due(u64::MAX / 2).is_none());
}

#[test]
fn interval_task_rearms_spaced_by_exactly_d() {
    let mut s = Scheduler::new();
    s.add_task(task("job2", ScheduleType::Interval(2 * SEC), "echo tick", 0), 0).unwrap();
    let mut now = 0u64;
    let mut count = 0u32;
    while now <= 6 * SEC {
        match s.pop_due(now) {
            Some(inst) => {
                assert_eq!(inst.exec_at, now);
                count += 1;
                let c = s.complete_instance(&inst, true, now);
                assert_eq!(c, Completion::Rearmed { exec_at: now + 2 * SEC });
            }
            None => match s.peek_next_due_at() {
                Some(t) => now = t,
                None => panic!("queue empty while the interval task is registered"),
            },
        }
    }
    assert!(count >= 3);
    assert!(has_task(&s, "job2"));
}

#[test]
fn failing_task_retries_with_increasing_delays_then_stops() {
    let mut s = Scheduler::new();
    s.add_task(task("f", ScheduleType::Interval(SEC), "false", 2), 0).unwrap();

    let i0 = s.pop_due(0).unwrap();
    assert_eq!(i0.retry_num, 0);
    let c0 = s.complete_instance(&i0, false, 0);
    assert_eq!(c0, Completion::RetryScheduled { exec_at: 2 * SEC, retry_num: 1 });

    let i1 = s.pop_due(2 * SEC).unwrap();
    assert_eq!(i1.retry_num, 1);
    let c1 = s.complete_instance(&i1, false, 2 * SEC);
    // The second delay (4 s) is strictly longer than the first (2 s).
    assert_eq!(c1, Completion::RetryScheduled { exec_at: 6 * SEC, retry_num: 2 });

    let i2 = s.pop_due(6 * SEC).unwrap();
    assert_eq!(i2.retry_num, 2);
    let c2 = s.complete_instance(&i2, false, 6 * SEC);
    assert_eq!(c2, Completion::RetriesExhausted { removed: false });

    // No further instances appear, but the interval task stays registered.
    assert!(s.pop_due(u64::MAX / 2).is_none());
    assert!(has_task(&s, "f"));
}

#[test]
fn backoff_delays_grow_strictly() {
    assert_eq!(backoff(0), 2 * SEC);
    assert_eq!(backoff(1), 4 * SEC);
    assert_eq!(backoff(2), 6 * SEC);
    assert!(backoff(0) < backoff(1) && backoff(1) < backoff(2));
}

#[test]
fn drain_mid_retry_keeps_retries_until_success() {
    let mut s = Scheduler::new();
    s.add_task(task("d", ScheduleType::Interval(SEC), "flaky", 2), 0).unwrap();

    let i0 = s.pop_due(0).unwrap();
    let c0 = s.complete_instance(&i0, false, 0);
    assert!(matches!(c0, Completion::RetryScheduled { .. }));

    s.drain_task("d".to_string()).unwrap();

    // The drained task keeps retrying on failure.
    let i1 = s.pop_due(2 * SEC).unwrap();
    let c1 = s.complete_instance(&i1, false, 2 * SEC);
    assert!(matches!(c1, Completion::RetryScheduled { .. }));
    assert!(has_task(&s, "d"));

    // It is removed only once a success occurs.
    let i2 = s.pop_due(8 * SEC).unwrap();
    let c2 = s.complete_instance(&i2, true, 8 * SEC);
    assert_eq!(c2, Completion::Drained);
    assert!(!has_task(&s, "d"));
    assert!(s.pop_due(u64::MAX / 2).is_none());
}

#[test]
fn drain_unknown_task_reports_not_found() {
    let mut s = Scheduler::new();
    assert_eq!(s.drain_task("ghost".to_string()), Err(SchedulerError::TaskNotFound));
}

#[test]
fn kill_purges_all_queued_instances() {
    let mut s = Scheduler::new();
    s.add_task(task("k", ScheduleType::Once, "echo k", 0), 10).unwrap();
    s.add_task(task("other", ScheduleType::Once, "echo o", 0), 40).unwrap();
    let t = s.list_tasks().into_iter().find(|t| t.task_id == "k").unwrap();
    s.schedule_task(t.clone(), 20, 0).unwrap();
    s.schedule_task(t, 30, 0).unwrap();

    assert_eq!(s.kill_task("k".to_string()), Ok(()));
    assert!(!has_task(&s, "k"));
    assert!(has_task(&s, "other"));

    // All three instances of "k" are gone; "other" still fires.
    let inst = s.pop_due(u64::MAX / 2).unwrap();
    assert_eq!(inst.task.task_id, "other");
    assert!(s.pop_due(u64::MAX / 2).is_none());
}

#[test]
fn kill_unknown_task_reports_not_found() {
    let mut s = Scheduler::new();
    assert_eq!(s.kill_task("ghost".to_string()), Err(SchedulerError::TaskNotFound));
}

#[test]
fn downstream_failure_never_triggers_target() {
    let mut s = Scheduler::new();
    s.add_task(task("a", ScheduleType::DownStream("b".to_string()), "echo a", 0), 0).unwrap();
    s.add_task(task("b", ScheduleType::Once, "echo b", 0), 100 * SEC).unwrap();

    let ia = s.pop_due(0).unwrap();
    assert_eq!(ia.task.task_id, "a");
    let c = s.complete_instance(&ia, false, 0);
    assert_eq!(c, Completion::RetriesExhausted { removed: false });

    // "b" was not triggered: nothing is due before its own far-off start.
    assert!(s.pop_due(99 * SEC).is_none());
    assert!(has_task(&s, "b"));

    s.kill_task("b".to_string()).unwrap();
    assert!(!has_task(&s, "b"));
}

#[test]
fn downstream_success_triggers_target_immediately() {
    let mut s = Scheduler::new();
    s.add_task(task("a", ScheduleType::DownStream("b".to_string()), "echo a", 0), 0).unwrap();
    s.add_task(task("b", ScheduleType::Once, "echo b", 0), 100 * SEC).unwrap();

    let ia = s.pop_due(0).unwrap();
    let c = s.complete_instance(&ia, true, 7);
    assert_eq!(c, Completion::Triggered { exec_at: 7 });

    let ib = s.pop_due(7).unwrap();
    assert_eq!(ib.task.task_id, "b");
    assert_eq!(ib.exec_at, 7);
    assert_eq!(ib.retry_num, 0);
}

#[test]
fn downstream_missing_target_is_reported_not_fatal() {
    let mut s = Scheduler::new();
    s.add_task(task("a", ScheduleType::DownStream("gone".to_string()), "echo a", 0), 0).unwrap();
    let ia = s.pop_due(0).unwrap();
    let c = s.complete_instance(&ia, true, 0);
    assert_eq!(c, Completion::DownstreamMissing);
    assert!(has_task(&s, "a"));
    assert!(s.pop_due(u64::MAX / 2).is_none());
}

#[test]
fn completion_after_kill_is_ignored() {
    let mut s = Scheduler::new();
    s.add_task(task("a", ScheduleType::Interval(SEC), "echo a", 5), 0).unwrap();
    let ia = s.pop_due(0).unwrap();
    s.kill_task("a".to_string()).unwrap();
    let c = s.complete_instance(&ia, true, 0);
    assert_eq!(c, Completion::TaskGone);
    assert!(s.list_tasks().is_empty());
    assert!(s.pop_due(u64::MAX / 2).is_none());
}

#[test]
fn next_wake_is_head_or_idle_cap() {
    let mut s = Scheduler::new();
    assert_eq!(s.next_wake_at(100, 2 * SEC), 100 + 2 * SEC);
    s.add_task(task("a", ScheduleType::Once, "echo a", 0), 500).unwrap();
    assert_eq!(s.next_wake_at(100, 2 * SEC), 500);
    assert_eq!(s.next_wake_at(100, 200), 300);
    assert_eq!(s.peek_next_due_at(), Some(500));
}
