use chainz::command::{apply_command, ClientCommand, HELP};
use chainz::scheduler::{Completion, Scheduler};
use chainz::task::{ScheduleType, Task};

const SEC: u64 = 1_000_000_000;

#[test]
fn schedule_spec_once() {
    assert!(matches!(ScheduleType::from_str("once"), Ok(ScheduleType::Once)));
    assert!(matches!(ScheduleType::from_str("  once \r\n"), Ok(ScheduleType::Once)));
}

#[test]
fn schedule_spec_interval_units() {
    match ScheduleType::from_str("interval:2s") {
        Ok(ScheduleType::Interval(n)) => assert_eq!(n, 2 * SEC),
        other => panic!("expected a 2 s interval, got {:?}", other),
    }
    match ScheduleType::from_str("interval:7n") {
        Ok(ScheduleType::Interval(n)) => assert_eq!(n, 7),
        other => panic!("expected a 7 ns interval, got {:?}", other),
    }
    match ScheduleType::from_str("interval:5m") {
        Ok(ScheduleType::Interval(n)) => assert_eq!(n, 300 * SEC),
        other => panic!("expected a 5 min interval, got {:?}", other),
    }
    match ScheduleType::from_str("interval:1h") {
        Ok(ScheduleType::Interval(n)) => assert_eq!(n, 3600 * SEC),
        other => panic!("expected a 1 h interval, got {:?}", other),
    }
}

#[test]
fn schedule_spec_dstream() {
    match ScheduleType::from_str("dstream:other") {
        Ok(ScheduleType::DownStream(id)) => assert_eq!(id, "other"),
        other => panic!("expected a downstream schedule, got {:?}", other),
    }
    // Only the segment between the first and a possible second colon names
    // the target.
    match ScheduleType::from_str("dstream:x:y") {
        Ok(ScheduleType::DownStream(id)) => assert_eq!(id, "x"),
        other => panic!("expected a downstream schedule, got {:?}", other),
    }
}

#[test]
fn schedule_spec_dstream_empty_target_is_the_empty_id() {
    // Everything between the first colon and the end (or a second colon)
    // names the target, so a bare `dstream:` names the empty id.
    match ScheduleType::from_str("dstream:") {
        Ok(ScheduleType::DownStream(id)) => assert_eq!(id, ""),
        other => panic!("expected a downstream schedule, got {:?}", other),
    }
}

#[test]
fn command_add_with_trailing_space_lacks_a_schedule() {
    // "ADD " carries an empty task id token and nothing after it.
    assert!(ClientCommand::from_str("ADD ").is_err());
}

#[test]
fn trim_keeps_inner_spaces() {
    assert_eq!(chainz::text::trim("  a b  "), "a b");
}

#[test]
fn schedule_spec_malformed_is_rejected() {
    assert!(ScheduleType::from_str("dstream").is_err());
    assert!(ScheduleType::from_str("interval").is_err());
    assert!(ScheduleType::from_str("interval:").is_err());
    assert!(ScheduleType::from_str("interval:s").is_err());
    assert!(ScheduleType::from_str("interval:5x").is_err());
    assert!(ScheduleType::from_str("interval:x5s").is_err());
    assert!(ScheduleType::from_str("interval:99999999999999999999s").is_err());
    assert!(ScheduleType::from_str("interval:99999999999999999999n").is_err());
    assert!(ScheduleType::from_str("never").is_err());
    assert!(ScheduleType::from_str("").is_err());
}

#[test]
fn command_add_parses_task() {
    match ClientCommand::from_str("ADD job1 once echo hi") {
        Ok(ClientCommand::Add(t)) => {
            assert_eq!(t.task_id, "job1");
            assert!(matches!(t.schedule, ScheduleType::Once));
            assert_eq!(t.cmd, "echo hi");
            assert_eq!(t.retries, 0);
        }
        other => panic!("expected an ADD, got {:?}", any_name(&other)),
    }
}

// ClientCommand carries a Task and has no Debug; name the variant by hand.
fn any_name(r: &Result<ClientCommand, String>) -> &'static str {
    match r {
        Ok(ClientCommand::Add(_)) => "Add",
        Ok(ClientCommand::Help) => "Help",
        Ok(ClientCommand::List) => "List",
        Ok(ClientCommand::Drain(_)) => "Drain",
        Ok(ClientCommand::Kill(_)) => "Kill",
        Ok(ClientCommand::Noop) => "Noop",
        Ok(ClientCommand::Error(_)) => "Error",
        Ok(ClientCommand::Exit) => "Exit",
        Err(_) => "Err",
    }
}

#[test]
fn command_keywords_are_case_insensitive() {
    assert!(matches!(ClientCommand::from_str("list"), Ok(ClientCommand::List)));
    assert!(matches!(ClientCommand::from_str("LiSt"), Ok(ClientCommand::List)));
    assert!(matches!(ClientCommand::from_str("exit"), Ok(ClientCommand::Exit)));
    assert!(matches!(ClientCommand::from_str("help"), Ok(ClientCommand::Help)));
    match ClientCommand::from_str("add j once echo x") {
        Ok(ClientCommand::Add(t)) => assert_eq!(t.task_id, "j"),
        other => panic!("expected an ADD, got {:?}", any_name(&other)),
    }
}

#[test]
fn command_add_keeps_command_string_verbatim() {
    match ClientCommand::from_str("ADD j interval:2s echo a  b") {
        Ok(ClientCommand::Add(t)) => {
            assert_eq!(t.cmd, "echo a  b");
            assert!(matches!(t.schedule, ScheduleType::Interval(n) if n == 2 * SEC));
        }
        other => panic!("expected an ADD, got {:?}", any_name(&other)),
    }
    // Nothing after the schedule spec: the command string is empty.
    match ClientCommand::from_str("ADD j once") {
        Ok(ClientCommand::Add(t)) => assert_eq!(t.cmd, ""),
        other => panic!("expected an ADD, got {:?}", any_name(&other)),
    }
}

#[test]
fn command_drain_and_kill_take_the_next_token() {
    match ClientCommand::from_str("DRAIN a b") {
        Ok(ClientCommand::Drain(id)) => assert_eq!(id, "a"),
        other => panic!("expected a DRAIN, got {:?}", any_name(&other)),
    }
    match ClientCommand::from_str("KILL x") {
        Ok(ClientCommand::Kill(id)) => assert_eq!(id, "x"),
        other => panic!("expected a KILL, got {:?}", any_name(&other)),
    }
    assert!(ClientCommand::from_str("DRAIN").is_err());
    assert!(ClientCommand::from_str("KILL").is_err());
}

#[test]
fn command_malformed_lines_are_rejected() {
    assert!(ClientCommand::from_str("").is_err());
    assert!(ClientCommand::from_str("FROB x").is_err());
    assert!(ClientCommand::from_str("ADD").is_err());
    assert!(ClientCommand::from_str("ADD j").is_err());
    assert!(ClientCommand::from_str("ADD j nonsense echo x").is_err());
}

#[test]
fn end_to_end_add_once_then_list_no_longer_contains_it() {
    let mut s = Scheduler::new();
    let cmd = ClientCommand::from_str("ADD job1 once echo hi").unwrap();
    let (resp, quit) = apply_command(&mut s, cmd, 0);
    assert_eq!(resp, "task successfully added");
    assert!(!quit);

    let (listing, _) = apply_command(&mut s, ClientCommand::List, 0);
    assert!(listing.contains("job1"));

    // One poll cycle: the instance is due, runs, and succeeds.
    let inst = s.pop_due(0).unwrap();
    let c = s.complete_instance(&inst, true, 0);
    assert_eq!(c, Completion::Finished);

    let (listing, _) = apply_command(&mut s, ClientCommand::List, 1);
    assert!(!listing.contains("job1"));
}

#[test]
fn end_to_end_interval_reexecutes_under_simulated_clock() {
    let mut s = Scheduler::new();
    let cmd = ClientCommand::from_str("ADD job2 interval:2s echo tick").unwrap();
    let (_, quit) = apply_command(&mut s, cmd, 0);
    assert!(!quit);
    let (listing, _) = apply_command(&mut s, ClientCommand::List, 0);
    assert!(listing.contains("job2"));

    let mut executions = 0u32;
    let mut now = 0u64;
    while now <= 6 * SEC {
        match s.pop_due(now) {
            Some(inst) => {
                executions += 1;
                s.complete_instance(&inst, true, now);
            }
            None => match s.peek_next_due_at() {
                Some(t) => now = t,
                None => break,
            },
        }
    }
    // Within about six seconds at least two re-executions follow the first.
    assert!(executions >= 3);
}

#[test]
fn end_to_end_failing_upstream_never_triggers_downstream() {
    let mut s = Scheduler::new();
    let add_a = ClientCommand::from_str("ADD a dstream:b echo a").unwrap();
    apply_command(&mut s, add_a, 0);
    let add_b = ClientCommand::from_str("ADD b once echo b").unwrap();
    apply_command(&mut s, add_b, u64::MAX / 4);

    let ia = s.pop_due(0).unwrap();
    assert_eq!(ia.task.task_id, "a");
    // Simulated execution failure; "a" has no retry budget.
    let c = s.complete_instance(&ia, false, 0);
    assert_eq!(c, Completion::RetriesExhausted { removed: false });

    // "b" was never triggered and stays registered until killed.
    assert!(s.pop_due(u64::MAX / 8).is_none());
    let (listing, _) = apply_command(&mut s, ClientCommand::List, 0);
    assert!(listing.contains('b'));
    let kill = ClientCommand::from_str("KILL b").unwrap();
    let (resp, _) = apply_command(&mut s, kill, 0);
    assert_eq!(resp, "task killed");
    assert!(!s.list_tasks().iter().any(|t| t.task_id == "b"));
}

#[test]
fn malformed_add_yields_error_and_no_mutation() {
    let mut s = Scheduler::new();
    let parsed = ClientCommand::from_str("ADD");
    let msg = match parsed {
        Err(e) => e,
        Ok(_) => panic!("a bare ADD must not parse"),
    };
    let (resp, quit) = apply_command(&mut s, ClientCommand::Error(msg.clone()), 0);
    assert_eq!(resp, msg);
    assert!(!quit);
    assert!(s.list_tasks().is_empty());
    assert!(s.pop_due(u64::MAX / 2).is_none());
}

#[test]
fn duplicate_add_through_protocol_reports_error() {
    let mut s = Scheduler::new();
    let c1 = ClientCommand::from_str("ADD a once echo 1").unwrap();
    let (r1, _) = apply_command(&mut s, c1, 0);
    assert_eq!(r1, "task successfully added");
    let c2 = ClientCommand::from_str("ADD a once echo 2").unwrap();
    let (r2, _) = apply_command(&mut s, c2, 0);
    assert_eq!(r2, "task already exists");
    assert_eq!(s.list_tasks().len(), 1);
}

#[test]
fn help_and_exit_responses() {
    let mut s = Scheduler::new();
    let (help, quit) = apply_command(&mut s, ClientCommand::Help, 0);
    assert_eq!(help, HELP);
    assert!(!quit);
    let (bye, quit) = apply_command(&mut s, ClientCommand::Exit, 0);
    assert_eq!(bye, "closing connection");
    assert!(quit);
    let (noop, quit) = apply_command(&mut s, ClientCommand::Noop, 0);
    assert_eq!(noop, "nothing happened");
    assert!(!quit);
}

#[test]
fn add_task_via_protocol_then_drain_not_found() {
    let mut s = Scheduler::new();
    let (resp, _) = apply_command(&mut s, ClientCommand::Drain("nope".to_string()), 0);
    assert_eq!(resp, "task not found");
    let (resp, _) = apply_command(&mut s, ClientCommand::Kill("nope".to_string()), 0);
    assert_eq!(resp, "task not found");
    let t = Task::new("z", ScheduleType::Interval(SEC), "echo z", 1);
    apply_command(&mut s, ClientCommand::Add(t), 3);
    let (resp, _) = apply_command(&mut s, ClientCommand::Drain("z".to_string()), 0);
    assert_eq!(resp, "task marked for drain");
}
