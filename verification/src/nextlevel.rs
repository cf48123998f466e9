//! The level-cleared screen.

use vstd::prelude::*;
use crate::audio::Sound;
use crate::state::{advance_level, level_advance, GameState};
use crate::world::{Command, World, WorldView};

verus! {

impl WorldView {
    /// The world after the level-cleared screen saw whether the enter key
    /// went down: a press there is heard as a click and leads to the next
    /// level, or after the last level to the menu and the first level.
    pub open spec fn next_level_answered(self, pressed: bool) -> WorldView {
        if pressed && self.state == GameState::NextLevel {
            self.with_level(level_advance(self.level).1).with_state(
                level_advance(self.level).0,
            ).emitted(Command::PlaySound(Sound::MenuClick))
        } else {
            self
        }
    }
}

/// Leaves the level-cleared screen when the enter key went down, and says
/// whether it did, so that the host can take the screen down.
pub fn enter_pressed(world: &mut World, pressed: bool) -> (left: bool)
    ensures
        left == (pressed && old(world)@.state == GameState::NextLevel),
        final(world)@ == old(world)@.next_level_answered(pressed),
        old(world)@.state.stays_or_leads_to(final(world)@.state),
        old(world).wf() ==> final(world).wf(),
{
    if pressed {
        match world.state() {
            GameState::NextLevel => {
                let (state, level) = advance_level(world.level());
                world.set_level(level);
                world.set_state(state);
                world.emit(Command::PlaySound(Sound::MenuClick));
                true
            },
            _ => false,
        }
    } else {
        false
    }
}

} // verus!
