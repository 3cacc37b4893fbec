use vstd::prelude::*;
use vstd::string::StringExecFns;

use crate::task::{has_tag_spec, texts, Task};

verus! {

/// The tag change that keeps a task's `taskn` tag in step with its note:
/// `+taskn` where a note exists and the tag is missing, `-taskn` where the tag
/// stands without a note.
pub open spec fn tag_change(has_note: bool, has_tag: bool) -> Option<Seq<char>> {
    if has_note && !has_tag {
        Some("+taskn"@)
    } else if !has_note && has_tag {
        Some("-taskn"@)
    } else {
        None
    }
}

/// The store arguments that bring the task's `taskn` tag in step with whether
/// it has a note; `None` where it already is.
pub fn tag_update(task: &Task, has_note: bool) -> (r: Option<Vec<String>>)
    ensures
        match tag_change(has_note, has_tag_spec(task.tags, "taskn"@)) {
            None => r is None,
            Some(c) => r is Some && texts(r->Some_0@) == seq![task.uuid@, "modify"@, c],
        },
{
    let has_tag = task.has_tag("taskn");
    let change = if has_note && !has_tag {
        String::from_str("+taskn")
    } else if !has_note && has_tag {
        String::from_str("-taskn")
    } else {
        return None;
    };
    let mut r: Vec<String> = Vec::new();
    r.push(task.uuid.clone());
    r.push(String::from_str("modify"));
    r.push(change);
    assert(texts(r@) =~= seq![task.uuid@, "modify"@, tag_change(has_note, has_tag)->0]);
    Some(r)
}

} // verus!
