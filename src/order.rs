use vstd::prelude::*;
use vstd::string::StrSliceExecFns;

use crate::modes::move_task;
use crate::session::with_position_keys;
use crate::task::{sort_by_estimate, sorted_by_estimate, Task};

verus! {

/// Why a reorder request was refused.
#[derive(Clone, Copy, Debug, PartialEq, Eq, Structural)]
pub enum OrderError {
    /// The request is not a task id followed by a position.
    ArgumentCount,
    /// The id or the position is not a number.
    InvalidNumber,
    /// The position is past the last task.
    PositionOutOfRange,
    /// No task has the id.
    UnknownTask,
}

/// The character is an ASCII digit.
pub open spec fn is_digit(c: char) -> bool {
    '0' <= c && c <= '9'
}

/// The number that a run of ASCII digits writes in decimal.
pub open spec fn digits_value(s: Seq<char>) -> nat
    decreases s.len(),
{
    if s.len() == 0 {
        0
    } else {
        digits_value(s.drop_last()) * 10 + (s.last() as nat - '0' as nat) as nat
    }
}

/// The text after a leading `+`, if there is one.
pub open spec fn unsigned_part(s: Seq<char>) -> Seq<char> {
    if s.len() > 0 && s[0] == '+' {
        s.skip(1)
    } else {
        s
    }
}

/// Every character is an ASCII digit.
pub open spec fn all_digits(d: Seq<char>) -> bool {
    forall|i: int| 0 <= i < d.len() ==> is_digit(#[trigger] d[i])
}

/// What `usize`'s `from_str` reads: an optional `+`, then one or more ASCII
/// digits whose value fits a `usize`; `None` for any other text.
pub open spec fn usize_of(s: Seq<char>) -> Option<usize> {
    let d = unsigned_part(s);
    if d.len() > 0 && all_digits(d) && digits_value(d) <= usize::MAX {
        Some(digits_value(d) as usize)
    } else {
        None
    }
}

/// Reads a decimal `usize` as `usize`'s `from_str` does.
pub fn parse_usize(s: &str) -> (r: Option<usize>)
    ensures
        r == usize_of(s@),
{
    let n = s.unicode_len();
    let start: usize = if n > 0 && s.get_char(0) == '+' {
        1
    } else {
        0
    };
    let ghost d = s@.skip(start as int);
    proof {
        if start == 0 {
            assert(d =~= s@);
        }
        assert(unsigned_part(s@) == d);
    }
    if start >= n {
        return None;
    }
    let mut value: u128 = 0;
    let mut over = false;
    let mut i: usize = start;
    while i < n
        invariant
            n == s@.len(),
            start <= i <= n,
            d == s@.skip(start as int),
            d == unsigned_part(s@),
            forall|k: int| 0 <= k < i - start ==> is_digit(#[trigger] d[k]),
            !over ==> value == digits_value(d.take(i - start)) && value <= usize::MAX,
            over ==> digits_value(d.take(i - start)) > usize::MAX,
        decreases n - i,
    {
        let c = s.get_char(i);
        if !('0' <= c && c <= '9') {
            assert(!is_digit(d[i - start]));
            return None;
        }
        let ghost prefix = d.take(i - start);
        assert(d.take(i + 1 - start).drop_last() =~= prefix);
        assert(d.take(i + 1 - start).last() == c);
        let digit = (c as u32 - '0' as u32) as u128;
        if !over {
            value = value * 10 + digit;
            if value > usize::MAX as u128 {
                over = true;
            }
        } else {
            assert(digits_value(prefix) * 10 + digit >= digits_value(prefix)) by (nonlinear_arith);
        }
        i = i + 1;
    }
    assert(d.take(n - start) =~= d);
    if over {
        None
    } else {
        Some(value as usize)
    }
}

/// The position of the first task with id `id`.
pub open spec fn first_with_id(tasks: Seq<Task>, id: usize) -> Option<int> {
    if exists|i: int| 0 <= i < tasks.len() && tasks[i].id == id {
        let i = choose|i: int|
            0 <= i < tasks.len() && tasks[i].id == id && forall|k: int|
                0 <= k < i ==> tasks[k].id != id;
        Some(i)
    } else {
        None
    }
}

/// The outcome of a reorder request on the ordered tasks: the tasks with
/// their new ordering keys, or why the request was refused.
pub open spec fn reorder(tasks: Seq<Task>, id: Option<usize>, pos: Option<usize>) -> Result<
    Seq<Task>,
    OrderError,
> {
    match (id, pos) {
        (Some(id), Some(pos)) => if pos >= tasks.len() {
            Err(OrderError::PositionOutOfRange)
        } else {
            match first_with_id(tasks, id) {
                None => Err(OrderError::UnknownTask),
                Some(i) => Ok(with_position_keys(move_task(tasks, i, pos as int))),
            }
        },
        _ => Err(OrderError::InvalidNumber),
    }
}

/// The pending tasks that the store listed, in order.
pub fn tasks_ordered(tasks: Vec<Task>) -> (r: Vec<Task>)
    ensures
        sorted_by_estimate(r@),
        r@.to_multiset() == tasks@.to_multiset(),
{
    sort_by_estimate(tasks)
}

/// Renumbers the ordered tasks by position. With the arguments `id` and
/// `position`, first moves the task with that id to that position.
pub fn execute(tasks: Vec<Task>, args: &Vec<String>) -> (r: Result<Vec<Task>, OrderError>)
    requires
        tasks@.len() <= i32::MAX as nat + 1,
    ensures
        args@.len() == 0 ==> r is Ok && r->Ok_0@ == with_position_keys(tasks@),
        args@.len() != 0 && args@.len() != 2 ==> r == Err::<Vec<Task>, OrderError>(
            OrderError::ArgumentCount,
        ),
        args@.len() == 2 ==> match reorder(tasks@, usize_of(args@[0]@), usize_of(args@[1]@)) {
            Ok(s) => r is Ok && r->Ok_0@ == s,
            Err(e) => r == Err::<Vec<Task>, OrderError>(e),
        },
{
    let mut tasks = tasks;
    if args.len() > 0 {
        if args.len() != 2 {
            return Err(OrderError::ArgumentCount);
        }
        let target_id = parse_usize(args[0].as_str());
        let target_order = parse_usize(args[1].as_str());
        let (target_id, target_order) = match (target_id, target_order) {
            (Some(a), Some(b)) => (a, b),
            _ => {
                return Err(OrderError::InvalidNumber);
            },
        };
        if target_order >= tasks.len() {
            return Err(OrderError::PositionOutOfRange);
        }
        let mut i: usize = 0;
        while i < tasks.len() && tasks[i].id != target_id
            invariant
                0 <= i <= tasks@.len(),
                forall|k: int| 0 <= k < i ==> (#[trigger] tasks@[k]).id != target_id,
            decreases tasks@.len() - i,
        {
            i = i + 1;
        }
        if i == tasks.len() {
            return Err(OrderError::UnknownTask);
        }
        proof {
            let j = choose|j: int|
                0 <= j < tasks@.len() && tasks@[j].id == target_id && forall|k: int|
                    0 <= k < j ==> tasks@[k].id != target_id;
            assert(j == i);
        }
        let ghost before = tasks@;
        let task = tasks.remove(i);
        tasks.insert(target_order, task);
        assert(tasks@ =~= move_task(before, i as int, target_order as int));
    }
    let ghost orig = tasks@;
    let mut i: usize = 0;
    while i < tasks.len()
        invariant
            orig.len() <= i32::MAX as nat + 1,
            tasks@.len() == orig.len(),
            0 <= i <= tasks@.len(),
            forall|k: int| 0 <= k < i ==> #[trigger] tasks@[k] == (Task { estimate: Some(k as i32), ..orig[k] }),
            forall|k: int| i <= k < tasks@.len() ==> #[trigger] tasks@[k] == orig[k],
        decreases tasks@.len() - i,
    {
        tasks[i].estimate = Some(i as i32);
        i = i + 1;
    }
    assert(tasks@ =~= with_position_keys(orig));
    Ok(tasks)
}

} // verus!
