//! The game-over screen.

use vstd::prelude::*;
use crate::state::GameState;
use crate::world::{World, WorldView};

verus! {

impl WorldView {
    /// The world after the game-over screen saw whether a key went down: a
    /// key press there starts the game anew.
    pub open spec fn game_over_answered(self, pressed: bool) -> WorldView {
        if pressed && self.state == GameState::GameOver {
            self.with_state(GameState::Gameplay)
        } else {
            self
        }
    }
}

/// Leaves the game-over screen for a new game when a key went down, and
/// says whether it did, so that the host can take the screen down.
pub fn any_button_pressed(world: &mut World, pressed: bool) -> (left: bool)
    ensures
        left == (pressed && old(world)@.state == GameState::GameOver),
        final(world)@ == old(world)@.game_over_answered(pressed),
        old(world)@.state.stays_or_leads_to(final(world)@.state),
        old(world).wf() ==> final(world).wf(),
{
    if pressed {
        match world.state() {
            GameState::GameOver => {
                world.set_state(GameState::Gameplay);
                true
            },
            _ => false,
        }
    } else {
        false
    }
}

} // verus!
