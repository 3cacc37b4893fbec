use vstd::prelude::*;

use crate::modes::{done_step, mode_step, normal_step, shift_step, ActionResult, Key, Mode};
use crate::session::{
    is_pending, pending_count, selected_index, session_wf, with_position_keys, SessionView,
};
use crate::task::{sorted_by_estimate, Task};

verus! {

/// Browsing with Up or Down keeps the selection on a task, moves it by at
/// most one place, never past either end and never around.
pub proof fn lemma_browse_stays_in_bounds(s: SessionView, key: Key, s2: SessionView, r: ActionResult)
    requires
        session_wf(s),
        s.tasks.len() <= usize::MAX,
        key == Key::Up || key == Key::Down,
        normal_step(s, key, s2, r),
    ensures
        session_wf(s2),
        s.tasks.len() > 0 ==> 0 <= selected_index(s2) < s.tasks.len(),
        key == Key::Up ==> selected_index(s2) == if selected_index(s) > 0 {
            selected_index(s) - 1
        } else {
            0
        },
        key == Key::Down ==> selected_index(s2) == if selected_index(s) + 1 < s.tasks.len() {
            selected_index(s) + 1
        } else {
            selected_index(s)
        },
{
}

/// Starting a reorder and cancelling it at once gives back the session as it
/// was, order and selection alike. (On an empty session a reorder does not
/// start at all.)
pub proof fn lemma_reorder_cancel_restores(
    s: SessionView,
    s1: SessionView,
    r1: ActionResult,
    cancel: Key,
    s2: SessionView,
    r2: ActionResult,
)
    requires
        session_wf(s),
        s.tasks.len() > 0,
        normal_step(s, Key::Char('s'), s1, r1),
        cancel == Key::Esc || cancel == Key::Ctrl('f'),
        mode_step(r1.new_mode->0, s1, cancel, s2, r2),
    ensures
        r1.new_mode is Some,
        s2 == s,
        r2.new_mode == Some(Mode::Normal(crate::modes::Normal)),
        !r2.should_flush,
{
    let sel = selected_index(s);
    assert(s.tasks.remove(sel).insert(sel, s.tasks[sel]) =~= s.tasks);
}

/// Tasks whose keys are all present and rise strictly stand in the only
/// order sorted by key: any sorted arrangement of them is that sequence.
proof fn lemma_sorted_arrangement_unique(t: Seq<Task>, u: Seq<Task>)
    requires
        forall|i: int| 0 <= i < t.len() ==> (#[trigger] t[i]).estimate is Some,
        forall|i: int, j: int|
            0 <= i < j < t.len() ==> (#[trigger] t[i]).estimate->0 < (#[trigger] t[j]).estimate->0,
        u.to_multiset() == t.to_multiset(),
        sorted_by_estimate(u),
    ensures
        u == t,
    decreases t.len(),
{
    broadcast use vstd::seq_lib::group_to_multiset_ensures;

    vstd::seq_lib::to_multiset_len(u);
    vstd::seq_lib::to_multiset_len(t);
    if t.len() == 0 {
        assert(u =~= t);
    } else {
        assert(u.to_multiset().count(t[0]) > 0);
        let j = choose|j: int| 0 <= j < u.len() && u[j] == t[0];
        assert(t.to_multiset().count(u[0]) > 0);
        let k = choose|k: int| 0 <= k < t.len() && t[k] == u[0];
        if j > 0 {
            assert(crate::task::estimate_le(u[0].estimate, u[j].estimate));
        }
        if k > 0 {
            assert(t[0].estimate->0 < t[k].estimate->0);
        }
        assert(u[0] == t[0]);
        vstd::seq_lib::to_multiset_remove(u, 0);
        vstd::seq_lib::to_multiset_remove(t, 0);
        assert(u.remove(0) =~= u.drop_first());
        assert(t.remove(0) =~= t.drop_first());
        let t1 = t.drop_first();
        let u1 = u.drop_first();
        assert forall|a: int, b: int| 0 <= a < b < t1.len() implies (#[trigger] t1[a]).estimate->0 < (
        #[trigger] t1[b]).estimate->0 by {
            assert(t[a + 1].estimate->0 < t[b + 1].estimate->0);
        }
        assert forall|a: int, b: int| 0 <= a < b < u1.len() implies crate::task::estimate_le(
            #[trigger] u1[a].estimate,
            #[trigger] u1[b].estimate,
        ) by {
            assert(crate::task::estimate_le(u[a + 1].estimate, u[b + 1].estimate));
        }
        lemma_sorted_arrangement_unique(t1, u1);
        assert forall|i: int| 0 <= i < u.len() implies u[i] == t[i] by {
            if i > 0 {
                assert(u[i] == u1[i - 1]);
                assert(t[i] == t1[i - 1]);
            }
        }
        assert(u =~= t);
    }
}

/// Committing a reorder persists each task with its position as ordering
/// key; whatever order the store lists those records in, loading them back
/// gives the committed order exactly.
pub proof fn lemma_commit_round_trip(
    original_pos: usize,
    s: SessionView,
    commit: Key,
    s2: SessionView,
    r: ActionResult,
    records: Seq<Task>,
    loaded: Seq<Task>,
)
    requires
        session_wf(s),
        s.tasks.len() <= i32::MAX as nat + 1,
        forall|i: int| 0 <= i < s.tasks.len() ==> is_pending(#[trigger] s.tasks[i]),
        commit == Key::Char('\n') || commit == Key::Char('s'),
        shift_step(original_pos, s, commit, s2, r),
        records.to_multiset() == with_position_keys(s2.tasks).to_multiset(),
        sorted_by_estimate(loaded),
        forall|t: Task| #[trigger] loaded.to_multiset().count(t) == pending_count(records, t),
    ensures
        r.should_flush,
        loaded == with_position_keys(s.tasks),
{
    broadcast use vstd::seq_lib::group_to_multiset_ensures;

    let t = with_position_keys(s.tasks);
    let n = t.len();
    assert(s2.tasks == s.tasks);
    assert forall|i: int| 0 <= i < n implies is_pending(#[trigger] t[i]) by {
        assert(is_pending(s.tasks[i]));
    }
    assert(loaded.to_multiset() =~= t.to_multiset()) by {
        assert forall|x: Task| loaded.to_multiset().count(x) == t.to_multiset().count(x) by {
            if !is_pending(x) && t.to_multiset().count(x) > 0 {
                let k = choose|k: int| 0 <= k < n && t[k] == x;
                assert(is_pending(t[k]));
            }
        }
    }
    assert forall|i: int| 0 <= i < n implies (#[trigger] t[i]).estimate is Some by {}
    assert forall|i: int, j: int| 0 <= i < j < n implies (#[trigger] t[i]).estimate->0 < (
    #[trigger] t[j]).estimate->0 by {
        assert(t[i].estimate == Some(i as i32));
        assert(t[j].estimate == Some(j as i32));
    }
    lemma_sorted_arrangement_unique(t, loaded);
}

/// Confirming that the selected task is done persists it as done, so loading
/// the persisted records back no longer holds it: the reload is the other
/// tasks, in the order they stood; where uuids are unique, no loaded task has
/// the done task's uuid.
pub proof fn lemma_done_task_leaves_pending(
    s: SessionView,
    s2: SessionView,
    r: ActionResult,
    records: Seq<Task>,
    loaded: Seq<Task>,
)
    requires
        session_wf(s),
        s.tasks.len() > 0,
        s.tasks.len() <= i32::MAX as nat + 1,
        forall|i: int| 0 <= i < s.tasks.len() ==> is_pending(#[trigger] s.tasks[i]),
        done_step(s, Key::Char('\n'), s2, r),
        records.to_multiset() == with_position_keys(s2.tasks).to_multiset(),
        sorted_by_estimate(loaded),
        forall|t: Task| #[trigger] loaded.to_multiset().count(t) == pending_count(records, t),
    ensures
        r.should_flush,
        loaded == with_position_keys(s2.tasks).remove(selected_index(s)),
        loaded.len() == s.tasks.len() - 1,
        forall|k: int|
            0 <= k < loaded.len() ==> (#[trigger] loaded[k]).uuid@ == s.tasks[if k < selected_index(s) {
                k
            } else {
                k + 1
            }].uuid@,
        !loaded.contains(with_position_keys(s2.tasks)[selected_index(s)]),
        (forall|i: int, j: int|
            0 <= i < j < s.tasks.len() ==> (#[trigger] s.tasks[i]).uuid@ != (#[trigger] s.tasks[j]).uuid@)
            ==> forall|k: int| 0 <= k < loaded.len() ==> (#[trigger] loaded[k]).uuid@ != s.tasks[selected_index(s)].uuid@,
{
    broadcast use vstd::seq_lib::group_to_multiset_ensures;

    let t = with_position_keys(s2.tasks);
    let sel = selected_index(s);
    let m = t[sel];
    assert(m.status@ == "done"@);
    reveal_strlit("done");
    reveal_strlit("pending");
    assert(m.status@ != "pending"@) by {
        assert(m.status@[0] == 'd');
        assert("pending"@[0] == 'p');
    }
    assert(!is_pending(m));
    assert(loaded.to_multiset().count(m) == 0);
    let rest = t.remove(sel);
    assert forall|i: int| 0 <= i < rest.len() implies is_pending(#[trigger] rest[i]) by {
        let k = if i < sel { i } else { i + 1 };
        assert(rest[i] == t[k]);
        assert(s2.tasks[k] == s.tasks[k]);
        assert(is_pending(s.tasks[k]));
    }
    vstd::seq_lib::to_multiset_remove(t, sel);
    assert(loaded.to_multiset() =~= rest.to_multiset()) by {
        assert forall|x: Task| loaded.to_multiset().count(x) == rest.to_multiset().count(x) by {
            if !is_pending(x) && rest.to_multiset().count(x) > 0 {
                let k = choose|k: int| 0 <= k < rest.len() && rest[k] == x;
                assert(is_pending(rest[k]));
            }
        }
    }
    assert forall|i: int| 0 <= i < rest.len() implies (#[trigger] rest[i]).estimate is Some by {
        let k = if i < sel { i } else { i + 1 };
        assert(rest[i] == t[k]);
    }
    assert forall|i: int, j: int| 0 <= i < j < rest.len() implies (#[trigger] rest[i]).estimate->0 < (
    #[trigger] rest[j]).estimate->0 by {
        let a = if i < sel { i } else { i + 1 };
        let b = if j < sel { j } else { j + 1 };
        assert(rest[i] == t[a]);
        assert(rest[j] == t[b]);
    }
    lemma_sorted_arrangement_unique(rest, loaded);
    assert forall|k: int| 0 <= k < loaded.len() implies (#[trigger] loaded[k]).uuid@ == s.tasks[if k
        < sel {
        k
    } else {
        k + 1
    }].uuid@ by {
        let a = if k < sel { k } else { k + 1 };
        assert(loaded[k] == t[a]);
        assert(a == sel || s2.tasks[a] == s.tasks[a]);
    }
    if forall|i: int, j: int|
        0 <= i < j < s.tasks.len() ==> (#[trigger] s.tasks[i]).uuid@ != (#[trigger] s.tasks[j]).uuid@ {
        assert forall|k: int| 0 <= k < loaded.len() implies (#[trigger] loaded[k]).uuid@
            != s.tasks[sel].uuid@ by {
            let x = loaded[k];
            assert(loaded.to_multiset().count(x) > 0);
            assert(is_pending(x));
            assert(records.to_multiset().count(x) > 0);
            assert(t.to_multiset().count(x) > 0);
            let j = choose|j: int| 0 <= j < t.len() && t[j] == x;
            assert(j != sel);
            assert(s2.tasks[j] == s.tasks[j]);
            if j < sel {
                assert(s.tasks[j].uuid@ != s.tasks[sel].uuid@);
            } else {
                assert(s.tasks[sel].uuid@ != s.tasks[j].uuid@);
            }
        }
    }
}

} // verus!
