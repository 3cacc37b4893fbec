use vstd::prelude::*;

use crate::modes::{mode_fits, mode_step, ActionResult, Key, Mode, Normal};
use crate::session::{session_wf, CommonState};

verus! {

/// What the controller must do after a key press.
#[derive(Clone, Copy, Debug, PartialEq, Eq, Structural)]
pub enum Directive {
    /// Nothing: draw the session again.
    Stay,
    /// Load the session from the task store again.
    Reload,
    /// Persist the session (`CommonState::flush_to_taskwarrior`), then load it again.
    Flush,
}

/// The directive that an action result asks for; persisting comes first.
pub open spec fn directive_of(r: ActionResult) -> Directive {
    if r.should_flush {
        Directive::Flush
    } else if r.should_load {
        Directive::Reload
    } else {
        Directive::Stay
    }
}

/// A browsing session together with the mode it is in.
pub struct Session {
    pub state: CommonState,
    pub mode: Mode,
}

impl Session {
    pub open spec fn wf(&self) -> bool {
        self.state.wf() && mode_fits(self.mode, self.state@)
    }

    /// A session that starts out browsing.
    pub fn new(state: CommonState) -> (r: Session)
        requires
            state.wf(),
        ensures
            r.wf(),
            r.state == state,
            r.mode == Mode::Normal(Normal),
    {
        Session { state, mode: Mode::Normal(Normal) }
    }

    /// Hands a key to the active mode, switches to the mode it asks for, and
    /// says whether to reload or persist. A reload or persist always goes
    /// back to browsing.
    pub fn handle_key(&mut self, key: Key) -> (d: Directive)
        requires
            old(self).wf(),
        ensures
            final(self).wf(),
            exists|r: ActionResult|
                {
                    &&& mode_step(old(self).mode, old(self).state@, key, final(self).state@, r)
                    &&& final(self).mode == match r.new_mode {
                        Some(m) => m,
                        None => old(self).mode,
                    }
                    &&& d == directive_of(r)
                },
            d != Directive::Stay ==> final(self).mode == Mode::Normal(Normal),
    {
        let ghost before = *self;
        let r = self.mode.update(&mut self.state, key);
        if let Some(m) = r.new_mode {
            self.mode = m;
        }
        let d = if r.should_flush {
            Directive::Flush
        } else if r.should_load {
            Directive::Reload
        } else {
            Directive::Stay
        };
        assert(mode_step(before.mode, before.state@, key, self.state@, r));
        assert(self.mode == match r.new_mode {
            Some(m) => m,
            None => before.mode,
        });
        assert(d == directive_of(r));
        d
    }

    /// Puts a freshly loaded session state in place.
    pub fn replace_state(&mut self, state: CommonState)
        requires
            old(self).wf(),
            old(self).mode == Mode::Normal(Normal),
            state.wf(),
        ensures
            final(self).wf(),
            final(self).state == state,
            final(self).mode == old(self).mode,
    {
        self.state = state;
    }
}

} // verus!
