use vstd::prelude::*;
use vstd::string::{StrSliceExecFns, StringExecFns};

use crate::text::{
    all_digits, digits_val, find_char, first_at, parse_u64, str_eq, trim, trim_spec,
};

verus! {

/// A task is identified by a caller-supplied string, unique within the
/// registry. Ids are never regenerated by the scheduler.
pub type TaskId = String;

/// Describes how a task is scheduled:
/// - `Interval`: the task is executed again that many nanoseconds after each
///   successful completion
/// - `DownStream`: the named task is scheduled on successful completion
/// - `Once`: the task is scheduled and executed once (with retries)
#[derive(Debug)]
pub enum ScheduleType {
    Interval(u64),
    DownStream(TaskId),
    Once,
}

impl Clone for ScheduleType {
    fn clone(&self) -> (res: Self)
        ensures
            res == *self,
    {
        match self {
            ScheduleType::Interval(d) => ScheduleType::Interval(*d),
            ScheduleType::DownStream(id) => ScheduleType::DownStream(id.clone()),
            ScheduleType::Once => ScheduleType::Once,
        }
    }
}

/// The mathematical content of a `ScheduleType`: the interval in nanoseconds,
/// the downstream target id as a character sequence, or `Once`.
pub enum ScheduleModel {
    Interval(int),
    DownStream(Seq<char>),
    Once,
}

impl View for ScheduleType {
    type V = ScheduleModel;

    open spec fn view(&self) -> ScheduleModel {
        match self {
            ScheduleType::Interval(d) => ScheduleModel::Interval(*d as int),
            ScheduleType::DownStream(id) => ScheduleModel::DownStream(id@),
            ScheduleType::Once => ScheduleModel::Once,
        }
    }
}

/// Nanoseconds per unit suffix of an interval spec: `n` nanoseconds, `s`
/// seconds, `m` minutes, `h` hours.
pub open spec fn unit_nanos(c: char) -> Option<int> {
    if c == 'n' {
        Some(1int)
    } else if c == 's' {
        Some(1_000_000_000int)
    } else if c == 'm' {
        Some(60_000_000_000int)
    } else if c == 'h' {
        Some(3_600_000_000_000int)
    } else {
        None
    }
}

/// The duration in nanoseconds denoted by `<digits><unit>`, when well-formed
/// and representable in a `u64`.
pub open spec fn interval_nanos_spec(d: Seq<char>) -> Option<int> {
    if d.len() == 0 {
        None
    } else {
        let num = d.drop_last();
        if num.len() == 0 || !all_digits(num) {
            None
        } else {
            match unit_nanos(d.last()) {
                Some(u) => if digits_val(num) * u <= u64::MAX {
                    Some(digits_val(num) * u)
                } else {
                    None
                },
                None => None,
            }
        }
    }
}

/// What a schedule spec parses to: `once`, `dstream:<task_id>` (the target is
/// the segment between the first and a possible second colon), or
/// `interval:<N><unit>`; `None` when the spec is malformed. The input is
/// trimmed first.
pub open spec fn parse_schedule_spec(s: Seq<char>) -> Option<ScheduleModel> {
    let t = trim_spec(s);
    if t == "once"@ {
        Some(ScheduleModel::Once)
    } else {
        match first_at(t, ':') {
            Option::None => None,
            Option::Some(ci) => {
                let head = t.subrange(0, ci);
                let rest = t.subrange(ci + 1, t.len() as int);
                let second = match first_at(rest, ':') {
                    Option::None => rest,
                    Option::Some(c2) => rest.subrange(0, c2),
                };
                if head == "dstream"@ {
                    Some(ScheduleModel::DownStream(second))
                } else if head == "interval"@ {
                    match interval_nanos_spec(second) {
                        Option::Some(v) => Some(ScheduleModel::Interval(v)),
                        Option::None => None,
                    }
                } else {
                    None
                }
            },
        }
    }
}

impl ScheduleType {
    /// Parse a schedule spec: `once`, `dstream:<task_id>`, or
    /// `interval:<N><unit>` with unit `n` (nanoseconds), `s` (seconds), `m`
    /// (minutes) or `h` (hours). Malformed specs yield an error message and
    /// parse to nothing.
    pub fn from_str(data: &str) -> (r: Result<ScheduleType, String>)
        ensures
            match r {
                Result::Ok(sch) => parse_schedule_spec(data@) == Some(sch@),
                Result::Err(_) => parse_schedule_spec(data@) is None,
            },
    {
        let t = trim(data);
        if str_eq(t, "once") {
            return Ok(ScheduleType::Once);
        }
        let ci = match find_char(t, ':') {
            Option::Some(ci) => ci,
            Option::None => {
                return Err(
                    "incorrect schedule: once | dstream:<task_id> | interval:<Xn|s|m|h>".to_owned(),
                );
            },
        };
        let tn = t.unicode_len();
        let head = t.substring_char(0, ci);
        let rest = t.substring_char(ci + 1, tn);
        let second = match find_char(rest, ':') {
            Option::Some(c2) => rest.substring_char(0, c2),
            Option::None => rest,
        };
        if str_eq(head, "dstream") {
            return Ok(ScheduleType::DownStream(second.to_owned()));
        }
        if str_eq(head, "interval") {
            let m = second.unicode_len();
            if m == 0 {
                return Err("invalid interval: expected <N><unit> with unit n|s|m|h".to_owned());
            }
            let num = second.substring_char(0, m - 1);
            proof {
                assert(num@ =~= second@.drop_last());
            }
            let value = match parse_u64(num) {
                Option::Some(v) => v,
                Option::None => {
                    proof {
                        if digits_val(num@) > u64::MAX {
                            match unit_nanos(second@.last()) {
                                Option::Some(u) => {
                                    assert(digits_val(num@) * u > u64::MAX) by (nonlinear_arith)
                                        requires
                                            digits_val(num@) > u64::MAX,
                                            u >= 1,
                                    ;
                                },
                                Option::None => {},
                            }
                        }
                    }
                    return Err("invalid interval value".to_owned());
                },
            };
            let unit = second.get_char(m - 1);
            let unit_mult: u64 = if unit == 'n' {
                1
            } else if unit == 's' {
                1_000_000_000
            } else if unit == 'm' {
                60_000_000_000
            } else if unit == 'h' {
                3_600_000_000_000
            } else {
                return Err("invalid time specifier: expected unit n|s|m|h".to_owned());
            };
            match value.checked_mul(unit_mult) {
                Option::Some(nanos) => {
                    return Ok(ScheduleType::Interval(nanos));
                },
                Option::None => {
                    return Err("interval too large".to_owned());
                },
            }
        }
        Err("incorrect schedule: once | dstream:<task_id> | interval:<Xn|s|m|h>".to_owned())
    }
}

/// Task configuration: how to schedule and execute a task. Immutable after
/// creation; the registry owns it, and every instance derived from it carries
/// its own copy.
#[derive(Debug)]
pub struct Task {
    pub schedule: ScheduleType,
    pub cmd: String,
    pub retries: u16,
    pub task_id: TaskId,
}

impl Clone for Task {
    fn clone(&self) -> (res: Self)
        ensures
            res == *self,
    {
        Task {
            schedule: self.schedule.clone(),
            cmd: self.cmd.clone(),
            retries: self.retries,
            task_id: self.task_id.clone(),
        }
    }
}

/// The mathematical content of a `Task`.
pub struct TaskModel {
    pub task_id: Seq<char>,
    pub schedule: ScheduleModel,
    pub cmd: Seq<char>,
    pub retries: u16,
}

impl View for Task {
    type V = TaskModel;

    open spec fn view(&self) -> TaskModel {
        TaskModel {
            task_id: self.task_id@,
            schedule: self.schedule@,
            cmd: self.cmd@,
            retries: self.retries,
        }
    }
}

impl Task {
    /// Build a task definition from its parts.
    pub fn new(task_id: &str, schedule: ScheduleType, cmd: &str, retries: u16) -> (t: Self)
        ensures
            t.task_id@ == task_id@,
            t.schedule == schedule,
            t.cmd@ == cmd@,
            t.retries == retries,
    {
        Task { task_id: task_id.to_owned(), schedule, cmd: cmd.to_owned(), retries }
    }
}

/// The character standing for a single decimal digit.
pub open spec fn digit_char(d: int) -> char {
    if d == 0 {
        '0'
    } else if d == 1 {
        '1'
    } else if d == 2 {
        '2'
    } else if d == 3 {
        '3'
    } else if d == 4 {
        '4'
    } else if d == 5 {
        '5'
    } else if d == 6 {
        '6'
    } else if d == 7 {
        '7'
    } else if d == 8 {
        '8'
    } else {
        '9'
    }
}

/// The decimal representation of `n`, most significant digit first.
pub open spec fn dec_rep(n: nat) -> Seq<char>
    decreases n,
{
    if n < 10 {
        seq![digit_char(n as int)]
    } else {
        dec_rep(n / 10).push(digit_char((n % 10) as int))
    }
}

fn digit_str(d: u64) -> (s: &'static str)
    requires
        d < 10,
    ensures
        s@ =~= seq![digit_char(d as int)],
{
    proof {
        reveal_strlit("0");
        reveal_strlit("1");
        reveal_strlit("2");
        reveal_strlit("3");
        reveal_strlit("4");
        reveal_strlit("5");
        reveal_strlit("6");
        reveal_strlit("7");
        reveal_strlit("8");
        reveal_strlit("9");
    }
    if d == 0 {
        "0"
    } else if d == 1 {
        "1"
    } else if d == 2 {
        "2"
    } else if d == 3 {
        "3"
    } else if d == 4 {
        "4"
    } else if d == 5 {
        "5"
    } else if d == 6 {
        "6"
    } else if d == 7 {
        "7"
    } else if d == 8 {
        "8"
    } else {
        "9"
    }
}

/// Append the decimal representation of `n` to `s`.
pub fn push_dec(s: &mut String, n: u64)
    ensures
        final(s)@ == old(s)@ + dec_rep(n as nat),
    decreases n,
{
    if n >= 10 {
        push_dec(s, n / 10);
    }
    let d = digit_str(n % 10);
    let ghost before = s@;
    s.append(d);
    proof {
        if n < 10 {
            assert(s@ =~= old(s)@ + dec_rep(n as nat));
        } else {
            assert(dec_rep(n as nat) =~= dec_rep(n as nat / 10) + seq![
                digit_char((n as nat % 10) as int),
            ]);
            assert(s@ =~= old(s)@ + dec_rep(n as nat));
        }
    }
}

/// The instance id a task instance is created with: the task id, an
/// underscore, and the decimal representation of the arming sequence number.
pub open spec fn instance_id_of(task_id: Seq<char>, seq_no: nat) -> Seq<char> {
    task_id + seq!['_'] + dec_rep(seq_no)
}

/// One concrete scheduled execution attempt of a task. Created each time a
/// task (or a retry of it) is armed, consumed exactly once by the poll loop;
/// re-arming always produces a new instance.
#[derive(Debug)]
pub struct TaskInstance {
    pub instance_id: String,
    pub task: Task,
    pub exec_at: u64,
    pub logs: String,
    pub retry_num: u16,
    pub seq_no: u64,
}

impl Clone for TaskInstance {
    fn clone(&self) -> (res: Self)
        ensures
            res == *self,
    {
        TaskInstance {
            instance_id: self.instance_id.clone(),
            task: self.task.clone(),
            exec_at: self.exec_at,
            logs: self.logs.clone(),
            retry_num: self.retry_num,
            seq_no: self.seq_no,
        }
    }
}

impl TaskInstance {
    /// Create a new instance of `task`, due at `exec_at` (nanoseconds since
    /// the epoch), carrying retry attempt `retry_num`. `seq_no` is the
    /// scheduler's arming counter; it makes the instance id unique and breaks
    /// ties between instances due at the same time.
    pub fn new(task: Task, exec_at: u64, retry_num: u16, seq_no: u64) -> (inst: Self)
        ensures
            inst.task == task,
            inst.exec_at == exec_at,
            inst.retry_num == retry_num,
            inst.seq_no == seq_no,
            inst.logs@ == Seq::<char>::empty(),
            inst.instance_id@ == instance_id_of(task.task_id@, seq_no as nat),
    {
        let mut iid = task.task_id.clone();
        proof {
            reveal_strlit("_");
            assert(("_")@ =~= seq!['_']);
        }
        iid.append("_");
        push_dec(&mut iid, seq_no);
        proof {
            assert(iid@ =~= instance_id_of(task.task_id@, seq_no as nat));
        }
        TaskInstance {
            instance_id: iid,
            task,
            exec_at,
            logs: String::new(),
            retry_num,
            seq_no,
        }
    }
}

/// Two instances are the same exactly when their instance ids agree.
impl PartialEq for TaskInstance {
    fn eq(&self, other: &Self) -> (r: bool) {
        self.instance_id == other.instance_id
    }
}

impl vstd::std_specs::cmp::PartialEqSpecImpl for TaskInstance {
    open spec fn obeys_eq_spec() -> bool {
        true
    }

    open spec fn eq_spec(&self, other: &Self) -> bool {
        self.instance_id@ == other.instance_id@
    }
}

} // verus!
