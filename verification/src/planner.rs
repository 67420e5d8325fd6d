//! Action-selection entry point consumed by AI collaborators. Selection
//! policy lives outside this core; the engine's enumeration interface is
//! the verified surface it builds on.

use vstd::prelude::*;

use crate::action::Action;
use crate::ids::PlayerId;
use crate::state::State;

verus! {

/// Select the next action for a player. This core carries no selection
/// policy and proposes nothing.
pub fn select_action(_state: &State, _player: PlayerId) -> (r: Option<Action>)
    ensures
        r is None,
{
    None
}

} // verus!
