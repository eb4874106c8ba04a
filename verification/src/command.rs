use vstd::prelude::*;
use vstd::string::{StrSliceExecFns, StringExecFns};

use crate::scheduler::{
    has_id, id_in, removed_id, state_unchanged, Scheduler,
};
use crate::queue::purged;
use crate::task::{parse_schedule_spec, ScheduleType, Task, TaskId, TaskModel};
use crate::text::{find_char, first_at, keyword_eq, str_eq_fold};

verus! {

/// Usage text returned for `HELP`.
pub const HELP: &'static str = "usage:\n    ADD <task_id> <schedule> <command...>   add and schedule a new task\n    LIST                                     list tasks\n    DRAIN <task_id>                          remove task after its next success\n    KILL <task_id>                           kill and remove task now\n    HELP                                     this text\n    EXIT                                     close the connection";

/// A parsed client command.
pub enum ClientCommand {
    Add(Task),
    Help,
    List,
    Drain(TaskId),
    Kill(TaskId),
    Noop,
    Error(String),
    Exit,
}

/// The mathematical content of a client command.
pub enum CommandModel {
    Add(TaskModel),
    Help,
    List,
    Drain(Seq<char>),
    Kill(Seq<char>),
    Noop,
    Error(Seq<char>),
    Exit,
}

impl View for ClientCommand {
    type V = CommandModel;

    open spec fn view(&self) -> CommandModel {
        match self {
            ClientCommand::Add(t) => CommandModel::Add(t@),
            ClientCommand::Help => CommandModel::Help,
            ClientCommand::List => CommandModel::List,
            ClientCommand::Drain(id) => CommandModel::Drain(id@),
            ClientCommand::Kill(id) => CommandModel::Kill(id@),
            ClientCommand::Noop => CommandModel::Noop,
            ClientCommand::Error(e) => CommandModel::Error(e@),
            ClientCommand::Exit => CommandModel::Exit,
        }
    }
}

/// The first space-separated token of `s`.
pub open spec fn tok_head(s: Seq<char>) -> Seq<char> {
    match first_at(s, ' ') {
        Option::Some(i) => s.subrange(0, i),
        Option::None => s,
    }
}

/// What follows the first space of `s`, when there is one.
pub open spec fn tok_rest(s: Seq<char>) -> Option<Seq<char>> {
    match first_at(s, ' ') {
        Option::Some(i) => Some(s.subrange(i + 1, s.len() as int)),
        Option::None => None,
    }
}

/// What one client line parses to. The keyword is case-insensitive; the
/// arguments keep their case. `ADD` takes a task id, a schedule spec, and the
/// rest of the line as the command string (empty when nothing follows the
/// spec). `None` is a parse error: an unknown keyword, missing arguments, or
/// a malformed schedule spec.
pub open spec fn parse_command_spec(s: Seq<char>) -> Option<CommandModel> {
    let head = tok_head(s);
    if str_eq_fold(head, "ADD"@) {
        match tok_rest(s) {
            Option::None => None,
            Option::Some(r1) => {
                let tid = tok_head(r1);
                match tok_rest(r1) {
                    Option::None => None,
                    Option::Some(r2) => {
                        let schtok = tok_head(r2);
                        let cmdstr = match tok_rest(r2) {
                            Option::Some(r3) => r3,
                            Option::None => Seq::<char>::empty(),
                        };
                        match parse_schedule_spec(schtok) {
                            Option::Some(m) => Some(
                                CommandModel::Add(
                                    TaskModel {
                                        task_id: tid,
                                        schedule: m,
                                        cmd: cmdstr,
                                        retries: 0u16,
                                    },
                                ),
                            ),
                            Option::None => None,
                        }
                    },
                }
            },
        }
    } else if str_eq_fold(head, "LIST"@) {
        Some(CommandModel::List)
    } else if str_eq_fold(head, "DRAIN"@) {
        match tok_rest(s) {
            Option::Some(r1) => Some(CommandModel::Drain(tok_head(r1))),
            Option::None => None,
        }
    } else if str_eq_fold(head, "KILL"@) {
        match tok_rest(s) {
            Option::Some(r1) => Some(CommandModel::Kill(tok_head(r1))),
            Option::None => None,
        }
    } else if str_eq_fold(head, "HELP"@) {
        Some(CommandModel::Help)
    } else if str_eq_fold(head, "EXIT"@) {
        Some(CommandModel::Exit)
    } else {
        None
    }
}

impl ClientCommand {
    /// Parse one client line. A malformed line (unknown keyword, missing
    /// arguments, bad schedule spec) yields an error message and parses to
    /// nothing; the caller reports it and mutates nothing.
    pub fn from_str(data: &str) -> (r: Result<ClientCommand, String>)
        ensures
            match r {
                Result::Ok(c) => parse_command_spec(data@) == Some(c@),
                Result::Err(_) => parse_command_spec(data@) is None,
            },
    {
        let n = data.unicode_len();
        let (head, rest1): (&str, Option<&str>) = match find_char(data, ' ') {
            Option::Some(i) => (data.substring_char(0, i), Some(data.substring_char(i + 1, n))),
            Option::None => (data, None),
        };
        if keyword_eq(head, "ADD") {
            let r1 = match rest1 {
                Option::Some(r) => r,
                Option::None => {
                    return Err("no task_id provided".to_owned());
                },
            };
            let n1 = r1.unicode_len();
            let (tid, rest2): (&str, Option<&str>) = match find_char(r1, ' ') {
                Option::Some(i) => (r1.substring_char(0, i), Some(r1.substring_char(i + 1, n1))),
                Option::None => (r1, None),
            };
            let r2 = match rest2 {
                Option::Some(r) => r,
                Option::None => {
                    return Err("no schedule provided".to_owned());
                },
            };
            let n2 = r2.unicode_len();
            let (schtok, cmdrest): (&str, Option<&str>) = match find_char(r2, ' ') {
                Option::Some(i) => (r2.substring_char(0, i), Some(r2.substring_char(i + 1, n2))),
                Option::None => (r2, None),
            };
            let schedule = match ScheduleType::from_str(schtok) {
                Result::Ok(s) => s,
                Result::Err(e) => {
                    return Err(e);
                },
            };
            let cmd: &str = match cmdrest {
                Option::Some(c) => c,
                Option::None => "",
            };
            proof {
                if cmdrest is None {
                    reveal_strlit("");
                    assert(cmd@ =~= Seq::<char>::empty());
                }
            }
            let task = Task::new(tid, schedule, cmd, 0);
            Ok(ClientCommand::Add(task))
        } else if keyword_eq(head, "LIST") {
            Ok(ClientCommand::List)
        } else if keyword_eq(head, "DRAIN") {
            match rest1 {
                Option::Some(r1) => {
                    let tid = match find_char(r1, ' ') {
                        Option::Some(i) => r1.substring_char(0, i),
                        Option::None => r1,
                    };
                    Ok(ClientCommand::Drain(tid.to_owned()))
                },
                Option::None => Err("no task id provided".to_owned()),
            }
        } else if keyword_eq(head, "KILL") {
            match rest1 {
                Option::Some(r1) => {
                    let tid = match find_char(r1, ' ') {
                        Option::Some(i) => r1.substring_char(0, i),
                        Option::None => r1,
                    };
                    Ok(ClientCommand::Kill(tid.to_owned()))
                },
                Option::None => Err("no task id provided".to_owned()),
            }
        } else if keyword_eq(head, "HELP") {
            Ok(ClientCommand::Help)
        } else if keyword_eq(head, "EXIT") {
            Ok(ClientCommand::Exit)
        } else {
            Err("invalid command; send HELP for usage".to_owned())
        }
    }
}

/// A task definition with the model `tm` was registered and its first
/// instance armed at `now`; nothing else changed.
pub open spec fn added(pre: Scheduler, post: Scheduler, tm: TaskModel, now: u64) -> bool {
    &&& post.registry() == pre.registry().push(post.registry().last())
    &&& post.registry().last()@ == tm
    &&& post.queue() == pre.queue().push(post.queue().last())
    &&& post.queue().last().task@ == tm
    &&& post.queue().last().exec_at == now
    &&& post.queue().last().retry_num == 0
    &&& post.drain_ids() == pre.drain_ids()
    &&& post.next_seq == pre.next_seq + 1
}

/// The id was marked for drain; nothing else changed.
pub open spec fn drain_marked(pre: Scheduler, post: Scheduler, id: Seq<char>) -> bool {
    &&& post.registry() == pre.registry()
    &&& post.queue() == pre.queue()
    &&& post.next_seq == pre.next_seq
    &&& forall|x: Seq<char>|
        #[trigger] id_in(post.drain_ids(), x) <==> (id_in(pre.drain_ids(), x) || x == id)
}

/// The task was removed at once: registry entry gone, queued instances
/// purged, drain mark forgotten.
pub open spec fn killed(pre: Scheduler, post: Scheduler, id: Seq<char>) -> bool {
    &&& removed_id(pre.registry(), post.registry(), id)
    &&& post.queue() == purged(pre.queue(), id)
    &&& forall|x: Seq<char>|
        #[trigger] id_in(post.drain_ids(), x) <==> id_in(pre.drain_ids(), x) && x != id
    &&& post.next_seq == pre.next_seq
}

/// How one parsed command changes the scheduler. Only `ADD`, `DRAIN` and
/// `KILL` mutate it, and only when they succeed; an op on an unknown or
/// duplicate id reports an error and leaves every structure as it was; only
/// `EXIT` ends the session.
pub open spec fn apply_spec(
    pre: Scheduler,
    post: Scheduler,
    c: CommandModel,
    now: u64,
    quit: bool,
) -> bool {
    match c {
        CommandModel::Add(tm) => !quit && if has_id(pre.registry(), tm.task_id) {
            state_unchanged(pre, post)
        } else {
            added(pre, post, tm, now)
        },
        CommandModel::Drain(id) => !quit && if has_id(pre.registry(), id) {
            drain_marked(pre, post, id)
        } else {
            state_unchanged(pre, post)
        },
        CommandModel::Kill(id) => !quit && if has_id(pre.registry(), id) {
            killed(pre, post, id)
        } else {
            state_unchanged(pre, post)
        },
        CommandModel::List => !quit && state_unchanged(pre, post),
        CommandModel::Help => !quit && state_unchanged(pre, post),
        CommandModel::Noop => !quit && state_unchanged(pre, post),
        CommandModel::Error(_) => !quit && state_unchanged(pre, post),
        CommandModel::Exit => quit && state_unchanged(pre, post),
    }
}

/// The registry dump: one line per registered task, in registry order, each
/// holding its id.
pub open spec fn rendered_ids(tasks: Seq<Task>) -> Seq<char>
    decreases tasks.len(),
{
    if tasks.len() == 0 {
        Seq::empty()
    } else {
        rendered_ids(tasks.drop_last()) + seq!['\n'] + tasks.last().task_id@
    }
}

/// Which response line each command earns: a success or failure notice for
/// the mutating commands, the registry dump for `LIST`, the usage text for
/// `HELP`, the carried message for a parse error, the farewell for `EXIT`.
pub open spec fn response_spec(pre: Scheduler, c: CommandModel, resp: Seq<char>) -> bool {
    match c {
        CommandModel::Add(tm) => resp == if has_id(pre.registry(), tm.task_id) {
            "task already exists"@
        } else {
            "task successfully added"@
        },
        CommandModel::Drain(id) => resp == if has_id(pre.registry(), id) {
            "task marked for drain"@
        } else {
            "task not found"@
        },
        CommandModel::Kill(id) => resp == if has_id(pre.registry(), id) {
            "task killed"@
        } else {
            "task not found"@
        },
        CommandModel::List => resp == "tasks:"@ + rendered_ids(pre.registry()),
        CommandModel::Help => resp == HELP@,
        CommandModel::Noop => resp == "nothing happened"@,
        CommandModel::Error(e) => resp == e,
        CommandModel::Exit => resp == "closing connection"@,
    }
}

/// Apply one parsed command to the scheduler and render the response line.
/// The second component of the result says whether the client asked to close
/// the session.
pub fn apply_command(sched: &mut Scheduler, cmd: ClientCommand, now: u64) -> (r: (String, bool))
    requires
        old(sched).wf(),
        old(sched).next_seq < u64::MAX,
    ensures
        final(sched).wf(),
        apply_spec(*old(sched), *final(sched), cmd@, now, r.1),
        response_spec(*old(sched), cmd@, r.0@),
{
    match cmd {
        ClientCommand::Add(task) => {
            let resp = match sched.add_task(task, now) {
                Result::Ok(_) => "task successfully added".to_owned(),
                Result::Err(_) => "task already exists".to_owned(),
            };
            (resp, false)
        },
        ClientCommand::Drain(task_id) => {
            let resp = match sched.drain_task(task_id) {
                Result::Ok(_) => "task marked for drain".to_owned(),
                Result::Err(_) => "task not found".to_owned(),
            };
            (resp, false)
        },
        ClientCommand::Kill(task_id) => {
            let resp = match sched.kill_task(task_id) {
                Result::Ok(_) => "task killed".to_owned(),
                Result::Err(_) => "task not found".to_owned(),
            };
            (resp, false)
        },
        ClientCommand::List => {
            let tasks = sched.list_tasks();
            let mut out = "tasks:".to_owned();
            proof {
                reveal_strlit("\n");
            }
            let mut i: usize = 0;
            while i < tasks.len()
                invariant
                    i <= tasks@.len(),
                    ("\n")@ =~= seq!['\n'],
                    out@ == "tasks:"@ + rendered_ids(tasks@.subrange(0, i as int)),
                decreases tasks@.len() - i,
            {
                let ghost prefix = tasks@.subrange(0, i as int);
                out.append("\n");
                out.append(tasks[i].task_id.as_str());
                proof {
                    let longer = tasks@.subrange(0, i + 1 as int);
                    assert(longer.drop_last() =~= prefix);
                    assert(longer.last() == tasks@[i as int]);
                    assert(out@ =~= "tasks:"@ + rendered_ids(longer));
                }
                i = i + 1;
            }
            proof {
                assert(tasks@.subrange(0, tasks@.len() as int) =~= tasks@);
            }
            (out, false)
        },
        ClientCommand::Help => (HELP.to_owned(), false),
        ClientCommand::Noop => ("nothing happened".to_owned(), false),
        ClientCommand::Error(e) => (e, false),
        ClientCommand::Exit => ("closing connection".to_owned(), true),
    }
}

} // verus!
