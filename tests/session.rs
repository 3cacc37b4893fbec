use taskn::controller::{Directive, Session};
use taskn::modes::{ActionResult, Done, Highlight, Key, Mode, Normal, Shift};
use taskn::session::CommonState;
use taskn::task::{sort_by_estimate, Task};

fn task(id: usize, uuid: &str, estimate: Option<i32>) -> Task {
    Task {
        id,
        description: format!("task {}", uuid),
        uuid: uuid.to_string(),
        status: "pending".to_string(),
        estimate,
        tags: None,
        wait: None,
        taskn_reminder_uuid: None,
    }
}

fn uuids(tasks: &[Task]) -> Vec<String> {
    tasks.iter().map(|t| t.uuid.clone()).collect()
}

fn state_abc() -> CommonState {
    let tasks = vec![task(1, "a", Some(0)), task(2, "b", Some(1)), task(3, "c", Some(2))];
    let notes = vec![Some("note a".to_string()), None, Some("note c".to_string())];
    CommonState::load_from_taskwarrior(tasks, notes)
}

/// Writes the flushed records back as the store would list them (in reverse)
/// and loads them again.
fn reload(records: Vec<Task>, selected: usize) -> CommonState {
    let mut listed = records;
    listed.reverse();
    let notes = listed.iter().map(|_| None).collect();
    let mut state = CommonState::load_from_taskwarrior(listed, notes);
    state.select_clamped(selected);
    state
}

#[test]
fn load_selects_first_task() {
    let state = state_abc();
    assert_eq!(state.selection, Some(0));
    assert_eq!(state.selected(), 0);
}

#[test]
fn load_of_nothing_selects_nothing() {
    let state = CommonState::load_from_taskwarrior(vec![], vec![]);
    assert_eq!(state.selection, None);
    assert_eq!(state.selected(), 0);
    assert_eq!(state.selected_contents(), "");
}

#[test]
fn load_sorts_by_estimate_missing_last() {
    let tasks = vec![task(1, "x", None), task(2, "y", Some(5)), task(3, "z", Some(-1))];
    let state = CommonState::load_from_taskwarrior(tasks, vec![None, None, None]);
    assert_eq!(uuids(&state.tasks), vec!["z", "y", "x"]);
}

#[test]
fn load_keeps_pending_tasks_only() {
    let mut done = task(2, "b", Some(1));
    done.status = "done".to_string();
    let tasks = vec![task(1, "a", Some(0)), done, task(3, "c", Some(2))];
    let state = CommonState::load_from_taskwarrior(tasks, vec![None, None, None]);
    assert_eq!(uuids(&state.tasks), vec!["a", "c"]);
}

#[test]
fn sort_puts_missing_estimates_last() {
    let sorted = sort_by_estimate(vec![task(1, "p", None), task(2, "q", Some(3)), task(3, "r", Some(1))]);
    assert_eq!(uuids(&sorted), vec!["r", "q", "p"]);
}

#[test]
fn browse_up_and_down_clamp_at_ends() {
    let mut state = state_abc();
    let r = Normal.update(&mut state, Key::Up);
    assert_eq!(state.selected(), 0);
    assert_eq!(r, ActionResult::default());
    Normal.update(&mut state, Key::Down);
    Normal.update(&mut state, Key::Down);
    assert_eq!(state.selected(), 2);
    Normal.update(&mut state, Key::Down);
    assert_eq!(state.selected(), 2);
    Normal.update(&mut state, Key::Up);
    assert_eq!(state.selected(), 1);
}

#[test]
fn browse_keys_switch_modes() {
    let mut state = state_abc();
    Normal.update(&mut state, Key::Down);
    let r = Normal.update(&mut state, Key::Char('s'));
    assert_eq!(r.new_mode, Some(Mode::Shift(Shift { original_pos: 1 })));
    assert!(!r.should_flush && !r.should_load);
    let r = Normal.update(&mut state, Key::Char('d'));
    assert_eq!(r.new_mode, Some(Mode::Done(Done)));
    let r = Normal.update(&mut state, Key::Char('x'));
    assert_eq!(r.new_mode, None);
}

#[test]
fn browse_down_on_empty_changes_nothing() {
    let mut state = CommonState::load_from_taskwarrior(vec![], vec![]);
    let r = Normal.update(&mut state, Key::Down);
    assert_eq!(r, ActionResult::default());
    assert!(state.tasks.is_empty());
    assert_eq!(state.selection, None);
    let r = Normal.update(&mut state, Key::Up);
    assert_eq!(r, ActionResult::default());
    assert_eq!(state.selection, None);
}

#[test]
fn browse_reorder_and_done_keys_ignored_on_empty() {
    let mut state = CommonState::load_from_taskwarrior(vec![], vec![]);
    let r = Normal.update(&mut state, Key::Char('s'));
    assert_eq!(r, ActionResult::default());
    let r = Normal.update(&mut state, Key::Char('d'));
    assert_eq!(r, ActionResult::default());
    assert!(state.tasks.is_empty());
    assert_eq!(state.selection, None);
    let mut session = Session::new(state);
    assert_eq!(session.handle_key(Key::Char('s')), Directive::Stay);
    assert_eq!(session.mode, Mode::Normal(Normal));
    assert_eq!(session.handle_key(Key::Char('d')), Directive::Stay);
    assert_eq!(session.mode, Mode::Normal(Normal));
}

#[test]
fn load_keeps_one_note_entry_per_record() {
    let state = state_abc();
    let entries: Vec<(String, String)> = state.tasks_contents.clone();
    assert_eq!(
        entries,
        vec![
            ("a".to_string(), "note a".to_string()),
            ("b".to_string(), "".to_string()),
            ("c".to_string(), "note c".to_string())
        ]
    );
}

#[test]
fn reorder_on_empty_does_not_panic() {
    let mut state = CommonState::load_from_taskwarrior(vec![], vec![]);
    let shift = Shift::new(0);
    shift.update(&mut state, Key::Down);
    shift.update(&mut state, Key::Up);
    let r = shift.update(&mut state, Key::Esc);
    assert_eq!(r.new_mode, Some(Mode::Normal(Normal)));
    let r = Done.update(&mut state, Key::Char('\n'));
    assert_eq!(r.new_mode, Some(Mode::Normal(Normal)));
    assert!(!r.should_flush);
    assert!(state.tasks.is_empty());
}

#[test]
fn reorder_then_cancel_restores_order() {
    let mut state = state_abc();
    Normal.update(&mut state, Key::Down);
    let r = Normal.update(&mut state, Key::Char('s'));
    let mode = r.new_mode.unwrap();
    let r = mode.update(&mut state, Key::Esc);
    assert_eq!(uuids(&state.tasks), vec!["a", "b", "c"]);
    assert_eq!(state.selection, Some(1));
    assert_eq!(r.new_mode, Some(Mode::Normal(Normal)));
    assert!(!r.should_flush);
}

#[test]
fn reorder_moves_then_cancel_puts_back() {
    let mut state = state_abc();
    let shift = Shift::new(0);
    shift.update(&mut state, Key::Down);
    shift.update(&mut state, Key::Down);
    assert_eq!(uuids(&state.tasks), vec!["b", "c", "a"]);
    assert_eq!(state.selected(), 2);
    shift.update(&mut state, Key::Down);
    assert_eq!(uuids(&state.tasks), vec!["b", "c", "a"]);
    let r = shift.update(&mut state, Key::Ctrl('f'));
    assert_eq!(uuids(&state.tasks), vec!["a", "b", "c"]);
    assert_eq!(state.selected(), 0);
    assert!(!r.should_flush);
}

#[test]
fn reorder_down_then_commit_persists_order() {
    let mut state = state_abc();
    Normal.update(&mut state, Key::Down);
    let shift = Shift::new(state.selected());
    let r = shift.update(&mut state, Key::Down);
    assert_eq!(r.new_mode, None);
    assert_eq!(uuids(&state.tasks), vec!["a", "c", "b"]);
    assert_eq!(state.selected(), 2);
    let r = shift.update(&mut state, Key::Char('\n'));
    assert_eq!(r.new_mode, Some(Mode::Normal(Normal)));
    assert!(r.should_flush);
    let (records, selected) = state.flush_to_taskwarrior();
    let keys: Vec<(String, Option<i32>)> = records.iter().map(|t| (t.uuid.clone(), t.estimate)).collect();
    assert_eq!(
        keys,
        vec![("a".to_string(), Some(0)), ("c".to_string(), Some(1)), ("b".to_string(), Some(2))]
    );
    let state = reload(records, selected);
    assert_eq!(uuids(&state.tasks), vec!["a", "c", "b"]);
    assert_eq!(state.selected(), 2);
}

#[test]
fn reorder_up_and_commit_with_s() {
    let mut state = state_abc();
    let shift = Shift::new(2);
    state.select_clamped(2);
    shift.update(&mut state, Key::Up);
    shift.update(&mut state, Key::Up);
    shift.update(&mut state, Key::Up);
    assert_eq!(uuids(&state.tasks), vec!["c", "a", "b"]);
    let r = shift.update(&mut state, Key::Char('s'));
    assert!(r.should_flush);
    let (records, selected) = state.flush_to_taskwarrior();
    let state = reload(records, selected);
    assert_eq!(uuids(&state.tasks), vec!["c", "a", "b"]);
    assert_eq!(state.selected(), 0);
}

#[test]
fn confirm_done_drops_task_after_reload() {
    let mut state = state_abc();
    Normal.update(&mut state, Key::Down);
    Normal.update(&mut state, Key::Down);
    let r = Done.update(&mut state, Key::Char('\n'));
    assert_eq!(r.new_mode, Some(Mode::Normal(Normal)));
    assert!(r.should_flush);
    assert_eq!(state.tasks[2].status, "done");
    assert_eq!(state.tasks[0].status, "pending");
    let (records, selected) = state.flush_to_taskwarrior();
    assert_eq!(selected, 2);
    let state = reload(records, selected);
    assert_eq!(uuids(&state.tasks), vec!["a", "b"]);
    assert_eq!(state.selected(), 1);
}

#[test]
fn confirm_cancel_changes_nothing() {
    let mut state = state_abc();
    let r = Done.update(&mut state, Key::Esc);
    assert_eq!(r.new_mode, Some(Mode::Normal(Normal)));
    assert!(!r.should_flush && !r.should_load);
    assert!(state.tasks.iter().all(|t| t.status == "pending"));
    let r = Done.update(&mut state, Key::Char('q'));
    assert_eq!(r, ActionResult::default());
}

#[test]
fn absent_note_reads_empty() {
    let mut state = state_abc();
    assert_eq!(state.selected_contents(), "note a");
    Normal.update(&mut state, Key::Down);
    assert_eq!(state.selected_contents(), "");
    Normal.update(&mut state, Key::Down);
    assert_eq!(state.selected_contents(), "note c");
}

#[test]
fn note_follows_task_after_reorder() {
    let mut state = state_abc();
    let shift = Shift::new(0);
    shift.update(&mut state, Key::Down);
    assert_eq!(state.selected(), 1);
    assert_eq!(state.selected_contents(), "note a");
}

#[test]
fn select_clamped_stays_in_range() {
    let mut state = state_abc();
    state.select_clamped(7);
    assert_eq!(state.selection, Some(2));
    let mut empty = CommonState::load_from_taskwarrior(vec![], vec![]);
    empty.select_clamped(3);
    assert_eq!(empty.selection, None);
}

#[test]
fn mode_styles() {
    assert_eq!(Mode::Normal(Normal).selected_modifiers(), vec![Highlight::Dim]);
    assert_eq!(
        Mode::Shift(Shift::new(0)).selected_modifiers(),
        vec![Highlight::Dim, Highlight::Underlined]
    );
    assert_eq!(
        Mode::Done(Done).selected_modifiers(),
        vec![Highlight::Dim, Highlight::CrossedOut]
    );
}

#[test]
fn controller_switches_modes_and_asks_to_persist() {
    let mut session = Session::new(state_abc());
    assert_eq!(session.mode, Mode::Normal(Normal));
    assert_eq!(session.handle_key(Key::Down), Directive::Stay);
    assert_eq!(session.handle_key(Key::Char('s')), Directive::Stay);
    assert_eq!(session.mode, Mode::Shift(Shift { original_pos: 1 }));
    assert_eq!(session.handle_key(Key::Up), Directive::Stay);
    assert_eq!(uuids(&session.state.tasks), vec!["b", "a", "c"]);
    assert_eq!(session.handle_key(Key::Char('\n')), Directive::Flush);
    assert_eq!(session.mode, Mode::Normal(Normal));
    assert_eq!(session.handle_key(Key::Char('d')), Directive::Stay);
    assert_eq!(session.mode, Mode::Done(Done));
    assert_eq!(session.handle_key(Key::Esc), Directive::Stay);
    assert_eq!(session.mode, Mode::Normal(Normal));
    session.replace_state(CommonState::load_from_taskwarrior(vec![], vec![]));
    assert_eq!(session.handle_key(Key::Down), Directive::Stay);
    assert!(session.state.tasks.is_empty());
}
