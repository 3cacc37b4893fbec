use vstd::prelude::*;
use vstd::string::StringExecFns;

use crate::task::{texts, ParsableDateTime, Task};

verus! {

/// Errors of the platform's reminder store.
#[derive(Debug)]
pub enum EKError {
    /// The user has not granted access to reminders.
    NoAccess,
    /// The store reported an error, with its description.
    NSError(String),
    /// No reminder has the identifier.
    NotFound,
}

/// Where a task's reminder comes from.
pub enum ReminderSource {
    /// The reminder that the task already names, by its identifier.
    Existing(String),
    /// A new reminder with this title and notes, due at `due` where set.
    New { title: String, notes: String, due: Option<ParsableDateTime> },
}

/// What to do for one task: get or create its reminder, save it, and record
/// the reminder's identifier on the task. The last save commits.
pub struct ReminderStep {
    pub source: ReminderSource,
    pub commit: bool,
}

/// The step for task `t`; `last` says whether it is the last task.
pub open spec fn step_for(t: Task, last: bool) -> ReminderStep {
    ReminderStep {
        source: match t.taskn_reminder_uuid {
            Some(u) => ReminderSource::Existing(u),
            None => ReminderSource::New { title: t.description, notes: t.uuid, due: t.wait },
        },
        commit: last,
    }
}

/// The store's filter for the tasks to remind of: the given arguments, the
/// `remindme` tag, and pending or waiting status.
pub fn task_filter(args: Vec<String>) -> (r: Vec<String>)
    ensures
        texts(r@) == texts(args@) + seq!["+remindme"@, "(status:pending or status:waiting)"@],
{
    let mut r = args;
    r.push(String::from_str("+remindme"));
    r.push(String::from_str("(status:pending or status:waiting)"));
    assert(texts(r@) =~= texts(args@) + seq!["+remindme"@, "(status:pending or status:waiting)"@]);
    r
}

/// The steps that put the tasks into the reminder store, one per task, in
/// order.
pub fn execute(tasks: &Vec<Task>) -> (r: Vec<ReminderStep>)
    ensures
        r@.len() == tasks@.len(),
        forall|i: int| 0 <= i < tasks@.len() ==> #[trigger] r@[i] == step_for(tasks@[i], i == tasks@.len() - 1),
{
    let mut r: Vec<ReminderStep> = Vec::new();
    let mut i: usize = 0;
    while i < tasks.len()
        invariant
            0 <= i <= tasks@.len(),
            r@.len() == i,
            forall|k: int| 0 <= k < i ==> #[trigger] r@[k] == step_for(tasks@[k], k == tasks@.len() - 1),
        decreases tasks@.len() - i,
    {
        let task = &tasks[i];
        let source = match &task.taskn_reminder_uuid {
            Some(u) => ReminderSource::Existing(u.clone()),
            None => ReminderSource::New {
                title: task.description.clone(),
                notes: task.uuid.clone(),
                due: task.wait,
            },
        };
        r.push(ReminderStep { source, commit: i == tasks.len() - 1 });
        i = i + 1;
    }
    r
}

/// The configuration line that declares the task attribute holding a
/// reminder's identifier.
pub open spec fn reminder_uda_spec() -> Seq<char> {
    "uda.taskn_reminder_uuid.type=string"@
}

/// The configuration line that declares the reminder attribute.
pub fn reminder_uda_line() -> (r: String)
    ensures
        r@ == reminder_uda_spec(),
{
    String::from_str("uda.taskn_reminder_uuid.type=string")
}

/// Whether the configuration lines already declare the reminder attribute.
pub fn has_reminder_uda(lines: &Vec<String>) -> (r: bool)
    ensures
        r == exists|i: int| 0 <= i < lines@.len() && (#[trigger] lines@[i])@ == reminder_uda_spec(),
{
    let line = reminder_uda_line();
    let mut i: usize = 0;
    while i < lines.len()
        invariant
            line@ == reminder_uda_spec(),
            0 <= i <= lines@.len(),
            forall|k: int| 0 <= k < i ==> (#[trigger] lines@[k])@ != reminder_uda_spec(),
        decreases lines@.len() - i,
    {
        if lines[i] == line {
            return true;
        }
        i = i + 1;
    }
    false
}

} // verus!
