use vstd::prelude::*;

verus! {

/// Whether the item now playing repeats.
#[derive(Clone, Copy, Debug, PartialEq, Eq, Structural)]
pub enum LoopState {
    Disabled,
    Enabled,
}

impl LoopState {
    /// The state after a toggle from `current`; an item never toggled counts
    /// as not looping.
    pub fn toggled(current: Option<LoopState>) -> (r: LoopState)
        ensures
            current == Some(LoopState::Enabled) ==> r == LoopState::Disabled,
            current != Some(LoopState::Enabled) ==> r == LoopState::Enabled,
    {
        match current {
            Some(LoopState::Enabled) => LoopState::Disabled,
            Some(LoopState::Disabled) => LoopState::Enabled,
            None => LoopState::Enabled,
        }
    }
}

} // verus!
