use vstd::prelude::*;
use vstd::string::StringExecFns;

use crate::task::{same_text, sort_by_estimate, sorted_by_estimate, Task};

verus! {

/// What a session holds: the tasks in display order, the note text of each
/// task keyed by its uuid, and the selection.
pub ghost struct SessionView {
    pub tasks: Seq<Task>,
    pub contents: Seq<(String, String)>,
    pub selection: Option<usize>,
}

/// The task is in the store's pending state.
pub open spec fn is_pending(t: Task) -> bool {
    t.status@ == "pending"@
}

/// `contents` holds a note entry for the task with this uuid.
pub open spec fn has_note(contents: Seq<(String, String)>, uuid: Seq<char>) -> bool {
    exists|j: int| 0 <= j < contents.len() && (#[trigger] contents[j]).0@ == uuid
}

/// The selected index, 0 when nothing is selected.
pub open spec fn selected_index(s: SessionView) -> int {
    match s.selection {
        Some(i) => i as int,
        None => 0,
    }
}

/// The session's invariant: a selection exactly when there are tasks, always
/// in range, and a note entry for every task.
pub open spec fn session_wf(s: SessionView) -> bool {
    &&& (s.tasks.len() == 0 <==> s.selection is None)
    &&& (s.selection is Some ==> s.selection->0 < s.tasks.len())
    &&& forall|i: int| 0 <= i < s.tasks.len() ==> has_note(s.contents, (#[trigger] s.tasks[i]).uuid@)
}

/// The note text stored for `uuid`: the first entry with that key.
pub open spec fn note_of(contents: Seq<(String, String)>, uuid: Seq<char>, text: Seq<char>) -> bool {
    exists|j: int|
        0 <= j < contents.len() && (#[trigger] contents[j]).0@ == uuid && contents[j].1@ == text
            && forall|k: int| 0 <= k < j ==> (#[trigger] contents[k]).0@ != uuid
}

/// The tasks with their ordering keys set to their positions.
pub open spec fn with_position_keys(s: Seq<Task>) -> Seq<Task> {
    Seq::new(s.len(), |i: int| Task { estimate: Some(i as i32), ..s[i] })
}

/// How many times `t` stands among the pending records of `records`.
pub open spec fn pending_count(records: Seq<Task>, t: Task) -> nat {
    if is_pending(t) {
        records.to_multiset().count(t)
    } else {
        0
    }
}

/// The in-memory model of a browsing session.
pub struct CommonState {
    pub tasks: Vec<Task>,
    pub tasks_contents: Vec<(String, String)>,
    pub selection: Option<usize>,
}

impl View for CommonState {
    type V = SessionView;

    open spec fn view(&self) -> SessionView {
        SessionView { tasks: self.tasks@, contents: self.tasks_contents@, selection: self.selection }
    }
}

impl CommonState {
    pub open spec fn wf(&self) -> bool {
        session_wf(self@)
    }

    /// Builds a session from the records that the task store listed and the
    /// note of each record (`None` where the record has no note): keeps the
    /// pending records, sorted by ordering key, and selects the first.
    pub fn load_from_taskwarrior(tasks: Vec<Task>, notes: Vec<Option<String>>) -> (r: Self)
        requires
            tasks@.len() == notes@.len(),
        ensures
            r.wf(),
            sorted_by_estimate(r.tasks@),
            forall|t: Task| #[trigger] r.tasks@.to_multiset().count(t) == pending_count(tasks@, t),
            r.tasks@.len() > 0 ==> r.selection == Some(0usize),
            r.tasks_contents@.len() == tasks@.len(),
            forall|i: int|
                0 <= i < tasks@.len() ==> (#[trigger] r.tasks_contents@[i]).0@ == tasks@[i].uuid@
                    && r.tasks_contents@[i].1@ == match notes@[i] {
                    Some(n) => n@,
                    None => Seq::<char>::empty(),
                },
            forall|i: int|
                0 <= i < tasks@.len() ==> note_of(
                    r.tasks_contents@,
                    (#[trigger] tasks@[i]).uuid@,
                    match notes@[i] {
                        Some(n) => n@,
                        None => Seq::empty(),
                    },
                ) || exists|k: int| 0 <= k < i && tasks@[k].uuid@ == tasks@[i].uuid@,
    {
        broadcast use vstd::seq_lib::group_to_multiset_ensures;

        let mut tasks_contents: Vec<(String, String)> = Vec::with_capacity(tasks.len());
        let mut i: usize = 0;
        while i < tasks.len()
            invariant
                tasks@.len() == notes@.len(),
                0 <= i <= tasks@.len(),
                tasks_contents@.len() == i,
                forall|k: int|
                    0 <= k < i ==> (#[trigger] tasks_contents@[k]).0@ == tasks@[k].uuid@ && tasks_contents@[k].1@
                        == match notes@[k] {
                        Some(n) => n@,
                        None => Seq::<char>::empty(),
                    },
            decreases tasks@.len() - i,
        {
            let text = match &notes[i] {
                Some(n) => n.clone(),
                None => String::new(),
            };
            tasks_contents.push((tasks[i].uuid.clone(), text));
            i = i + 1;
        }
        proof {
            assert forall|i: int| 0 <= i < tasks@.len() implies note_of(
                tasks_contents@,
                (#[trigger] tasks@[i]).uuid@,
                match notes@[i] {
                    Some(n) => n@,
                    None => Seq::empty(),
                },
            ) || exists|k: int| 0 <= k < i && tasks@[k].uuid@ == tasks@[i].uuid@ by {
                if !(exists|k: int| 0 <= k < i && tasks@[k].uuid@ == tasks@[i].uuid@) {
                    assert forall|k: int| 0 <= k < i implies (#[trigger] tasks_contents@[k]).0@
                        != tasks@[i].uuid@ by {
                        assert(tasks_contents@[k].0@ == tasks@[k].uuid@);
                    }
                    assert(tasks_contents@[i].0@ == tasks@[i].uuid@);
                }
            }
        }
        let ghost all = tasks@;
        let mut rest = tasks;
        let mut pending: Vec<Task> = Vec::new();
        while rest.len() > 0
            invariant
                forall|t: Task|
                    #[trigger] pending@.to_multiset().count(t) + pending_count(rest@, t)
                        == pending_count(all, t),
                forall|t: Task| pending@.contains(t) ==> all.contains(t),
                forall|k: int| 0 <= k < rest@.len() ==> all.contains(#[trigger] rest@[k]),
            decreases rest@.len(),
        {
            let ghost before = rest@;
            let t = rest.pop().unwrap();
            proof {
                assert(before == rest@.push(t));
                vstd::seq_lib::to_multiset_build(rest@, t);
                assert(all.contains(before[before.len() - 1]));
            }
            if same_text(t.status.as_str(), "pending") {
                let ghost old_pending = pending@;
                pending.push(t);
                proof {
                    vstd::seq_lib::to_multiset_build(old_pending, t);
                    assert forall|u: Task| pending@.contains(u) implies all.contains(u) by {
                        assert(pending@ == old_pending.push(t));
                        if u != t {
                            let k = choose|k: int| 0 <= k < pending@.len() && pending@[k] == u;
                            assert(old_pending[k] == u);
                        }
                    }
                }
            }
        }
        proof {
            assert forall|t: Task| #[trigger] pending@.to_multiset().count(t) == pending_count(all, t) by {
                assert(rest@.to_multiset().count(t) == 0);
            }
        }
        let sorted = sort_by_estimate(pending);
        let selection = if sorted.len() > 0 {
            Some(0usize)
        } else {
            None
        };
        let r = CommonState { tasks: sorted, tasks_contents, selection };
        proof {
            assert forall|i: int| 0 <= i < r.tasks@.len() implies has_note(
                r.tasks_contents@,
                (#[trigger] r.tasks@[i]).uuid@,
            ) by {
                let t = r.tasks@[i];
                assert(r.tasks@.to_multiset().count(t) > 0);
                assert(pending@.contains(t));
                let k = choose|k: int| 0 <= k < all.len() && all[k] == t;
                assert(r.tasks_contents@[k].0@ == t.uuid@);
            }
        }
        r
    }

    /// The selected index; 0 when nothing is selected, and never past the
    /// last task.
    pub fn selected(&self) -> (r: usize)
        requires
            self.wf(),
        ensures
            r == selected_index(self@),
            self.tasks@.len() > 0 ==> r < self.tasks@.len(),
    {
        match self.selection {
            None => 0,
            Some(s) => if s < self.tasks.len() {
                s
            } else if self.tasks.len() > 0 {
                self.tasks.len() - 1
            } else {
                0
            },
        }
    }

    /// The note text of the selected task, found by its uuid; empty when
    /// there is no task.
    pub fn selected_contents(&self) -> (r: &str)
        requires
            self.wf(),
        ensures
            self.tasks@.len() == 0 ==> r@ == Seq::<char>::empty(),
            self.tasks@.len() > 0 ==> note_of(
                self.tasks_contents@,
                self.tasks@[selected_index(self@)].uuid@,
                r@,
            ),
    {
        if self.tasks.len() == 0 {
            proof {
                reveal_strlit("");
            }
            return "";
        }
        let selected = self.selected();
        let uuid = &self.tasks[selected].uuid;
        let mut j: usize = 0;
        while j < self.tasks_contents.len()
            invariant
                self.wf(),
                selected == selected_index(self@),
                selected < self.tasks@.len(),
                *uuid == self.tasks@[selected as int].uuid,
                0 <= j <= self.tasks_contents@.len(),
                forall|k: int| 0 <= k < j ==> (#[trigger] self.tasks_contents@[k]).0@ != uuid@,
            decreases self.tasks_contents@.len() - j,
        {
            if self.tasks_contents[j].0 == *uuid {
                return self.tasks_contents[j].1.as_str();
            }
            j = j + 1;
        }
        proof {
            assert(has_note(self.tasks_contents@, self.tasks@[selected as int].uuid@));
        }
        ""
    }

    /// Sets each task's ordering key to its position and hands back the
    /// records to persist, with the selection to apply after reloading.
    pub fn flush_to_taskwarrior(self) -> (r: (Vec<Task>, usize))
        requires
            self.wf(),
            self.tasks@.len() <= i32::MAX as nat + 1,
        ensures
            r.0@ == with_position_keys(self.tasks@),
            r.1 == selected_index(self@),
    {
        let new_selected = self.selected();
        let mut tasks = self.tasks;
        let ghost orig = tasks@;
        let mut i: usize = 0;
        while i < tasks.len()
            invariant
                orig.len() <= i32::MAX as nat + 1,
                tasks@.len() == orig.len(),
                0 <= i <= tasks@.len(),
                forall|k: int| 0 <= k < i ==> #[trigger] tasks@[k] == (Task { estimate: Some(k as i32), ..orig[k] }),
                forall|k: int| i <= k < tasks@.len() ==> #[trigger] tasks@[k] == orig[k],
            decreases tasks@.len() - i,
        {
            tasks[i].estimate = Some(i as i32);
            i = i + 1;
        }
        assert(tasks@ =~= with_position_keys(orig));
        (tasks, new_selected)
    }

    /// Re-applies a selection after a reload, clamped to the last task.
    pub fn select_clamped(&mut self, selected: usize)
        ensures
            final(self).tasks@ == old(self).tasks@,
            final(self).tasks_contents@ == old(self).tasks_contents@,
            final(self).selection == if old(self).tasks@.len() == 0 {
                None
            } else if selected < old(self).tasks@.len() {
                Some(selected)
            } else {
                Some((old(self).tasks@.len() - 1) as usize)
            },
    {
        let len = self.tasks.len();
        if len == 0 {
            self.selection = None;
        } else if selected < len {
            self.selection = Some(selected);
        } else {
            self.selection = Some(len - 1);
        }
    }
}

} // verus!
