use vstd::prelude::*;

use crate::status::{spec_down, spec_toggle, spec_up, Status};

verus! {

/// One input event, already mapped from whatever the terminal reported.
#[derive(Clone, Copy, PartialEq, Eq, Structural, Debug)]
pub enum Key {
    Down,
    Up,
    ToggleExpand,
    StageAll,
    Quit,
    Other,
}

/// What the loop around the snapshot has to do after a step: nothing
/// more, stage everything and re-read the working tree, or shut down.
#[derive(Clone, Copy, PartialEq, Eq, Structural, Debug)]
pub enum Action {
    Idle,
    Refresh,
    Quit,
}

impl Status {
    /// One iteration of the interaction loop's decision: consume one key,
    /// mutate the snapshot locally for the navigation and expansion keys,
    /// and hand every outside effect back as an `Action`. Unknown keys do
    /// nothing.
    pub fn step(&mut self, key: Key) -> (a: Action)
        requires
            old(self)@.wf(),
        ensures
            final(self)@.wf(),
            match key {
                Key::Down => final(self)@ == spec_down(old(self)@) && a == Action::Idle,
                Key::Up => final(self)@ == spec_up(old(self)@) && a == Action::Idle,
                Key::ToggleExpand => final(self)@ == spec_toggle(old(self)@) && a
                    == Action::Idle,
                Key::StageAll => final(self)@ == old(self)@ && a == Action::Refresh,
                Key::Quit => final(self)@ == old(self)@ && a == Action::Quit,
                Key::Other => final(self)@ == old(self)@ && a == Action::Idle,
            },
    {
        match key {
            Key::Down => {
                self.move_down();
                Action::Idle
            },
            Key::Up => {
                self.move_up();
                Action::Idle
            },
            Key::ToggleExpand => {
                self.expand();
                Action::Idle
            },
            Key::StageAll => Action::Refresh,
            Key::Quit => Action::Quit,
            Key::Other => Action::Idle,
        }
    }
}

} // verus!
