use chainz::errors::ExecError;
use chainz::operators::operator::{Operator, OperatorT};
use chainz::operators::python::PythonOperator;
use chainz::operators::rust::RustOperator;
use chainz::operators::shell::ShellOperator;
use chainz::operators::sql::SQLOperator;
use chainz::queue::ExecQueue;
use chainz::schedule::Schedule;
use chainz::task::{ScheduleType, Task, TaskInstance};
use chainz::text::{find_char, keyword_eq, parse_u64, str_eq, trim};
use chainz::unique_id::{combine_id, generate_unique_id};

fn inst(id: &str, exec_at: u64, seq_no: u64) -> TaskInstance {
    TaskInstance::new(Task::new(id, ScheduleType::Once, "echo", 0), exec_at, 0, seq_no)
}

#[test]
fn queue_pops_minimum_exec_at_first() {
    let mut q = ExecQueue::new();
    q.push(inst("c", 30, 1));
    q.push(inst("a", 10, 2));
    q.push(inst("b", 20, 3));
    assert_eq!(q.len(), 3);
    assert_eq!(q.peek_next_due_at(), Some(10));

    // Nothing due before the head's time.
    assert!(q.pop_if_due(9).is_none());
    assert_eq!(q.len(), 3);

    // Repeated pops yield non-decreasing exec_at.
    let p1 = q.pop_if_due(100).unwrap();
    let p2 = q.pop_if_due(100).unwrap();
    let p3 = q.pop_if_due(100).unwrap();
    assert_eq!(p1.exec_at, 10);
    assert_eq!(p2.exec_at, 20);
    assert_eq!(p3.exec_at, 30);
    assert!(p1.exec_at <= p2.exec_at && p2.exec_at <= p3.exec_at);
    assert!(q.pop_if_due(100).is_none());
}

#[test]
fn queue_breaks_ties_by_arming_order() {
    let mut q = ExecQueue::new();
    q.push(inst("later", 10, 7));
    q.push(inst("earlier", 10, 4));
    let first = q.pop_if_due(10).unwrap();
    assert_eq!(first.task.task_id, "earlier");
    let second = q.pop_if_due(10).unwrap();
    assert_eq!(second.task.task_id, "later");
}

#[test]
fn queue_purges_by_task_id() {
    let mut q = ExecQueue::new();
    q.push(inst("x", 10, 1));
    q.push(inst("y", 20, 2));
    q.push(inst("x", 30, 3));
    q.purge_id(&"x".to_string());
    assert_eq!(q.len(), 1);
    let left = q.pop_if_due(100).unwrap();
    assert_eq!(left.task.task_id, "y");
}

#[test]
fn instance_id_is_task_id_and_arming_number() {
    let t = Task::new("job", ScheduleType::Once, "echo", 0);
    let i = TaskInstance::new(t, 5, 0, 12345);
    assert_eq!(i.instance_id, "job_12345");
    assert_eq!(i.exec_at, 5);
    assert_eq!(i.logs, "");
    let t2 = Task::new("job", ScheduleType::Once, "echo", 0);
    let i0 = TaskInstance::new(t2, 5, 0, 0);
    assert_eq!(i0.instance_id, "job_0");
}

#[test]
fn instances_compare_by_instance_id() {
    let a1 = inst("a", 10, 1);
    let a1_again = inst("a", 99, 1);
    let a2 = inst("a", 10, 2);
    assert_eq!(a1, a1_again);
    assert_ne!(a1, a2);
}

#[test]
fn trim_strips_ascii_whitespace() {
    assert_eq!(trim("  hello \r\n"), "hello");
    assert_eq!(trim("hello"), "hello");
    assert_eq!(trim(" \t "), "");
    assert_eq!(trim(""), "");
}

#[test]
fn parse_u64_accepts_digits_only() {
    assert_eq!(parse_u64("0"), Some(0));
    assert_eq!(parse_u64("42"), Some(42));
    assert_eq!(parse_u64("18446744073709551615"), Some(u64::MAX));
    assert_eq!(parse_u64("18446744073709551616"), None);
    assert_eq!(parse_u64(""), None);
    assert_eq!(parse_u64("4x2"), None);
    assert_eq!(parse_u64("-4"), None);
    assert_eq!(parse_u64("+4"), None);
}

#[test]
fn text_helpers_compare_and_search() {
    assert!(str_eq("abc", "abc"));
    assert!(!str_eq("abc", "abd"));
    assert!(!str_eq("abc", "ab"));
    assert!(keyword_eq("AdD", "ADD"));
    assert!(keyword_eq("exit", "EXIT"));
    assert!(!keyword_eq("EXIT1", "EXIT"));
    assert_eq!(find_char("a:b", ':'), Some(1));
    assert_eq!(find_char("ab", ':'), None);
}

#[test]
fn schedule_adjusts_past_start_times() {
    // A future start is kept.
    let s = Schedule::new(20, Some(10), Some(true), 8);
    assert_eq!(s.start_time, 20);
    assert_eq!(s.duration, Some(10));
    // A past start skips one period forward when asked to.
    let s = Schedule::new(5, Some(10), Some(true), 8);
    assert_eq!(s.start_time, 15);
    // Without a period it snaps to now.
    let s = Schedule::new(5, None, Some(true), 8);
    assert_eq!(s.start_time, 8);
    // Without the skip flag it snaps to now.
    let s = Schedule::new(5, Some(10), None, 8);
    assert_eq!(s.start_time, 8);
    let s = Schedule::new(5, Some(10), Some(false), 8);
    assert_eq!(s.start_time, 8);
}

#[test]
fn combine_id_is_exclusive_or() {
    assert_eq!(combine_id(1, 2, 4), 7);
    assert_eq!(combine_id(0xff00, 0x00ff, 0), 0xffff);
    assert_eq!(combine_id(42, 42, 42), 42);
    // The composed generator runs and folds its sources.
    let _ = generate_unique_id(4242);
}

#[test]
fn operators_report_their_status() {
    let shell = ShellOperator::new("sh", "echo hi");
    assert_eq!(shell.shell, "sh");
    assert_eq!(shell.command, "echo hi");
    assert!(Operator::ShellOp(shell).execute().is_err());
    assert!(Operator::PythonOp(PythonOperator { code: "print".to_string() }).execute().is_err());
    assert!(Operator::RustOp(RustOperator {}).execute().is_err());
    let sql = SQLOperator { connection: (), sql: "select 1".to_string() };
    match sql.execute() {
        Err(e) => assert_eq!(e.message(), "Not implemented"),
        Ok(()) => panic!("the stub backend must refuse"),
    }
}

#[test]
fn exec_error_carries_its_message() {
    let e = ExecError::new("spawn failed".to_string());
    assert_eq!(e.message(), "spawn failed");
    assert_eq!(e.message, "spawn failed");
}
