use vstd::prelude::*;
use vstd::string::StringExecFns;

use crate::session::{selected_index, session_wf, CommonState, SessionView};
use crate::task::Task;

verus! {

/// A key press, as the modes tell keys apart.
#[derive(Clone, Copy, Debug, PartialEq, Eq, Structural)]
pub enum Key {
    Up,
    Down,
    Esc,
    Char(char),
    Ctrl(char),
    Other,
}

/// Browsing: moves the selection and changes no data.
#[derive(Clone, Copy, Debug, PartialEq, Eq, Structural)]
pub struct Normal;

/// Reordering: moves the selected task; remembers where it started so that
/// the move can be cancelled.
#[derive(Clone, Copy, Debug, PartialEq, Eq, Structural)]
pub struct Shift {
    pub original_pos: usize,
}

/// Confirming that the selected task is done.
#[derive(Clone, Copy, Debug, PartialEq, Eq, Structural)]
pub struct Done;

/// The mode a session is in.
#[derive(Clone, Copy, Debug, PartialEq, Eq, Structural)]
pub enum Mode {
    Normal(Normal),
    Shift(Shift),
    Done(Done),
}

/// A style that the renderer puts on the selected row.
#[derive(Clone, Copy, Debug, PartialEq, Eq, Structural)]
pub enum Highlight {
    Dim,
    Underlined,
    CrossedOut,
}

/// What a key press asks of the controller: a mode to switch to, and whether
/// to reload the session or to persist it (and then reload).
#[derive(Clone, Copy, Debug, PartialEq, Eq, Structural)]
pub struct ActionResult {
    pub new_mode: Option<Mode>,
    pub should_load: bool,
    pub should_flush: bool,
}

/// A result that switches to `mode`, or stays where `mode` is `None`.
pub open spec fn action(mode: Option<Mode>, flush: bool) -> ActionResult {
    ActionResult { new_mode: mode, should_load: false, should_flush: flush }
}

/// `s` with the task at `i` and the one after it exchanged.
pub open spec fn swap_adjacent(s: Seq<Task>, i: int) -> Seq<Task> {
    s.update(i, s[i + 1]).update(i + 1, s[i])
}

/// `s` with the task at `from` taken out and put back at `to`.
pub open spec fn move_task(s: Seq<Task>, from: int, to: int) -> Seq<Task> {
    s.remove(from).insert(to, s[from])
}

/// `u` is `t` marked done.
pub open spec fn marked_done(t: Task, u: Task) -> bool {
    u == (Task { status: u.status, ..t }) && u.status@ == "done"@
}

/// A step of browsing on key `key` from `s`, giving `s2` and `r`.
pub open spec fn normal_step(s: SessionView, key: Key, s2: SessionView, r: ActionResult) -> bool {
    let len = s.tasks.len();
    let sel = selected_index(s);
    &&& s2.tasks == s.tasks
    &&& s2.contents == s.contents
    &&& s2.selection == match key {
        Key::Up => if len > 0 && sel > 0 {
            Some((sel - 1) as usize)
        } else {
            s.selection
        },
        Key::Down => if sel + 1 < len {
            Some((sel + 1) as usize)
        } else {
            s.selection
        },
        _ => s.selection,
    }
    &&& r == match key {
        Key::Char('d') if len > 0 => action(Some(Mode::Done(Done)), false),
        Key::Char('s') if len > 0 => action(
            Some(Mode::Shift(Shift { original_pos: sel as usize })),
            false,
        ),
        _ => action(None, false),
    }
}

/// A step of reordering from `original_pos` on key `key` from `s`.
pub open spec fn shift_step(
    original_pos: usize,
    s: SessionView,
    key: Key,
    s2: SessionView,
    r: ActionResult,
) -> bool {
    let len = s.tasks.len();
    let sel = selected_index(s);
    &&& s2.contents == s.contents
    &&& match key {
        Key::Up => if len > 0 && sel > 0 {
            s2.tasks == swap_adjacent(s.tasks, sel - 1) && s2.selection == Some((sel - 1) as usize)
        } else {
            s2.tasks == s.tasks && s2.selection == s.selection
        },
        Key::Down => if sel + 1 < len {
            s2.tasks == swap_adjacent(s.tasks, sel) && s2.selection == Some((sel + 1) as usize)
        } else {
            s2.tasks == s.tasks && s2.selection == s.selection
        },
        Key::Esc | Key::Ctrl('f') => if len > 0 {
            s2.tasks == move_task(s.tasks, sel, original_pos as int) && s2.selection == Some(
                original_pos,
            )
        } else {
            s2.tasks == s.tasks && s2.selection == s.selection
        },
        _ => s2.tasks == s.tasks && s2.selection == s.selection,
    }
    &&& r == match key {
        Key::Char('\n') | Key::Char('s') => action(Some(Mode::Normal(Normal)), true),
        Key::Esc | Key::Ctrl('f') => action(Some(Mode::Normal(Normal)), false),
        _ => action(None, false),
    }
}

/// A step of confirming completion on key `key` from `s`.
pub open spec fn done_step(s: SessionView, key: Key, s2: SessionView, r: ActionResult) -> bool {
    let len = s.tasks.len();
    let sel = selected_index(s);
    &&& s2.contents == s.contents
    &&& s2.selection == s.selection
    &&& if key == Key::Char('\n') && len > 0 {
        &&& s2.tasks.len() == len
        &&& forall|k: int| 0 <= k < len && k != sel ==> #[trigger] s2.tasks[k] == s.tasks[k]
        &&& marked_done(s.tasks[sel], s2.tasks[sel])
    } else {
        s2.tasks == s.tasks
    }
    &&& r == match key {
        Key::Char('\n') => action(Some(Mode::Normal(Normal)), len > 0),
        Key::Esc | Key::Ctrl('f') => action(Some(Mode::Normal(Normal)), false),
        _ => action(None, false),
    }
}

/// A mode may act on a session: a reorder started at a task of it.
pub open spec fn mode_fits(m: Mode, s: SessionView) -> bool {
    match m {
        Mode::Shift(sh) => s.tasks.len() == 0 || sh.original_pos < s.tasks.len(),
        _ => true,
    }
}

/// A step of mode `m` on key `key`.
pub open spec fn mode_step(m: Mode, s: SessionView, key: Key, s2: SessionView, r: ActionResult) -> bool {
    match m {
        Mode::Normal(_) => normal_step(s, key, s2, r),
        Mode::Shift(sh) => shift_step(sh.original_pos, s, key, s2, r),
        Mode::Done(_) => done_step(s, key, s2, r),
    }
}

impl ActionResult {
    /// Stay in the mode, with nothing to reload or persist.
    pub fn default() -> (r: Self)
        ensures
            r == action(None, false),
    {
        ActionResult { new_mode: None, should_load: false, should_flush: false }
    }
}

impl Normal {
    pub fn update(&self, common_state: &mut CommonState, key: Key) -> (r: ActionResult)
        requires
            old(common_state).wf(),
        ensures
            final(common_state).wf(),
            normal_step(old(common_state)@, key, final(common_state)@, r),
    {
        let selected = common_state.selected();
        match key {
            Key::Up => {
                if common_state.tasks.len() > 0 && selected > 0 {
                    common_state.selection = Some(selected - 1);
                }
            },
            Key::Down => {
                if common_state.tasks.len() > 0 && selected < common_state.tasks.len() - 1 {
                    common_state.selection = Some(selected + 1);
                }
            },
            Key::Char('d') => {
                if common_state.tasks.len() == 0 {
                    return ActionResult::default();
                }
                return ActionResult {
                    new_mode: Some(Mode::Done(Done)),
                    should_load: false,
                    should_flush: false,
                };
            },
            Key::Char('s') => {
                if common_state.tasks.len() == 0 {
                    return ActionResult::default();
                }
                return ActionResult {
                    new_mode: Some(Mode::Shift(Shift::new(selected))),
                    should_load: false,
                    should_flush: false,
                };
            },
            _ => {},
        }
        ActionResult::default()
    }
}

impl Shift {
    pub fn new(current_pos: usize) -> (r: Self)
        ensures
            r.original_pos == current_pos,
    {
        Shift { original_pos: current_pos }
    }

    pub fn update(&self, common_state: &mut CommonState, key: Key) -> (r: ActionResult)
        requires
            old(common_state).wf(),
            mode_fits(Mode::Shift(*self), old(common_state)@),
        ensures
            final(common_state).wf(),
            shift_step(self.original_pos, old(common_state)@, key, final(common_state)@, r),
    {
        let ghost s = common_state@;
        match key {
            Key::Up => {
                let selected = common_state.selected();
                if common_state.tasks.len() > 0 && selected > 0 {
                    let task = common_state.tasks.remove(selected);
                    common_state.tasks.insert(selected - 1, task);
                    common_state.selection = Some(selected - 1);
                    assert(common_state.tasks@ =~= swap_adjacent(s.tasks, selected - 1));
                }
            },
            Key::Down => {
                let selected = common_state.selected();
                if common_state.tasks.len() > 0 && selected < common_state.tasks.len() - 1 {
                    let task = common_state.tasks.remove(selected);
                    common_state.tasks.insert(selected + 1, task);
                    common_state.selection = Some(selected + 1);
                    assert(common_state.tasks@ =~= swap_adjacent(s.tasks, selected as int));
                }
            },
            Key::Char('\n') | Key::Char('s') => {
                return ActionResult {
                    new_mode: Some(Mode::Normal(Normal)),
                    should_load: false,
                    should_flush: true,
                };
            },
            Key::Esc | Key::Ctrl('f') => {
                if common_state.tasks.len() > 0 {
                    let selected = common_state.selected();
                    let task = common_state.tasks.remove(selected);
                    common_state.tasks.insert(self.original_pos, task);
                    common_state.selection = Some(self.original_pos);
                }
                return ActionResult {
                    new_mode: Some(Mode::Normal(Normal)),
                    should_load: false,
                    should_flush: false,
                };
            },
            _ => {},
        }
        ActionResult::default()
    }
}

impl Done {
    pub fn update(&self, common_state: &mut CommonState, key: Key) -> (r: ActionResult)
        requires
            old(common_state).wf(),
        ensures
            final(common_state).wf(),
            done_step(old(common_state)@, key, final(common_state)@, r),
    {
        match key {
            Key::Esc | Key::Ctrl('f') => {
                return ActionResult {
                    new_mode: Some(Mode::Normal(Normal)),
                    should_load: false,
                    should_flush: false,
                };
            },
            Key::Char('\n') => {
                if common_state.tasks.len() == 0 {
                    return ActionResult {
                        new_mode: Some(Mode::Normal(Normal)),
                        should_load: false,
                        should_flush: false,
                    };
                }
                let selected = common_state.selected();
                common_state.tasks[selected].status = String::from_str("done");
                return ActionResult {
                    new_mode: Some(Mode::Normal(Normal)),
                    should_load: false,
                    should_flush: true,
                };
            },
            _ => {},
        }
        ActionResult::default()
    }
}

impl Mode {
    /// The styles of the selected row: dim; underlined while reordering,
    /// crossed out while confirming completion.
    pub fn selected_modifiers(&self) -> (r: Vec<Highlight>)
        ensures
            r@ == match *self {
                Mode::Normal(_) => seq![Highlight::Dim],
                Mode::Shift(_) => seq![Highlight::Dim, Highlight::Underlined],
                Mode::Done(_) => seq![Highlight::Dim, Highlight::CrossedOut],
            },
    {
        let mut r: Vec<Highlight> = Vec::new();
        r.push(Highlight::Dim);
        match self {
            Mode::Normal(_) => {},
            Mode::Shift(_) => r.push(Highlight::Underlined),
            Mode::Done(_) => r.push(Highlight::CrossedOut),
        }
        r
    }

    /// Hands the key to the mode's own step.
    pub fn update(&self, common_state: &mut CommonState, key: Key) -> (r: ActionResult)
        requires
            old(common_state).wf(),
            mode_fits(*self, old(common_state)@),
        ensures
            final(common_state).wf(),
            mode_step(*self, old(common_state)@, key, final(common_state)@, r),
    {
        match self {
            Mode::Normal(m) => m.update(common_state, key),
            Mode::Shift(m) => m.update(common_state, key),
            Mode::Done(m) => m.update(common_state, key),
        }
    }
}

} // verus!
