//! The menu screen.

use vstd::prelude::*;
use crate::audio::Sound;
use crate::state::GameState;
use crate::world::{Command, World, WorldView};

verus! {

impl WorldView {
    /// The world after the menu saw whether a key went down: a key press
    /// on the menu is heard as a click and starts the game.
    pub open spec fn menu_answered(self, pressed: bool) -> WorldView {
        if pressed && self.state == GameState::Menu {
            self.emitted(Command::PlaySound(Sound::MenuClick)).with_state(GameState::Gameplay)
        } else {
            self
        }
    }
}

/// Leaves the menu for the game when a key went down, and says whether it
/// did, so that the host can take the menu off the screen.
pub fn any_button_pressed(world: &mut World, pressed: bool) -> (left: bool)
    ensures
        left == (pressed && old(world)@.state == GameState::Menu),
        final(world)@ == old(world)@.menu_answered(pressed),
        old(world)@.state.stays_or_leads_to(final(world)@.state),
        old(world).wf() ==> final(world).wf(),
{
    if pressed {
        match world.state() {
            GameState::Menu => {
                world.emit(Command::PlaySound(Sound::MenuClick));
                world.set_state(GameState::Gameplay);
                true
            },
            _ => false,
        }
    } else {
        false
    }
}

} // verus!
