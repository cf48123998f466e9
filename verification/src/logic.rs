//! The conditions that end a level.

use vstd::prelude::*;
use crate::state::GameState;
use crate::utils::{describe_flag, flag_prefab};
use crate::world::{
    breakable_row, flag_row, lemma_changes_keep_wf, lemma_spawn_keeps_others, Entity, Kind,
    Vec3, World, WorldView,
};

verus! {

/// The marker of the level's exit.
#[derive(Clone, Copy, Debug, PartialEq, Eq, Structural)]
pub struct Flag {
    pub position: Vec3,
}

impl WorldView {
    /// The level is cleared and its exit not yet marked: play runs, no
    /// breakable is left and no flag stands.
    pub open spec fn is_cleared(self) -> bool {
        self.is_playing() && !self.has_breakable() && !self.has_flag()
    }

    /// The player is stuck: play runs, breakables are left, the only
    /// player has no bomb to place, and no bomb's fuse burns.
    pub open spec fn is_deadlocked(self) -> bool {
        &&& self.is_playing()
        &&& self.has_breakable()
        &&& self.sole_player() matches Some(player) && player.bomb_amount == 0
        &&& !self.has_live_bomb()
    }

    /// The world after the check for a cleared level: the exit flag is
    /// raised if the level is cleared.
    pub open spec fn finalized(self) -> WorldView {
        if self.is_cleared() {
            self.placed(flag_prefab())
        } else {
            self
        }
    }

    /// The world after the check for a stuck player: the game is over if
    /// the player is stuck.
    pub open spec fn lost(self) -> WorldView {
        if self.is_deadlocked() {
            self.with_state(GameState::GameOver)
        } else {
            self
        }
    }

    /// Whether at most one flag stands.
    pub open spec fn has_at_most_one_flag(self) -> bool {
        forall|a: Entity, b: Entity|
            (#[trigger] self.kind_of(a) matches Some(Kind::Flag(_))) && (#[trigger] self.kind_of(
                b,
            ) matches Some(Kind::Flag(_))) ==> a == b
    }
}

/// A level cannot be won and lost in the same tick: the flag is raised
/// only when no breakable is left, and the game is lost only while one is.
/// So the two conditions never hold of one world, and whichever check runs
/// first, the other does not fire after it.
pub proof fn lemma_win_excludes_loss(w: WorldView)
    requires
        w.wf(),
        w.has_room(1),
    ensures
        !(w.is_cleared() && w.is_deadlocked()),
        w.is_cleared() ==> !w.finalized().is_deadlocked(),
        w.is_deadlocked() ==> !w.lost().is_cleared(),
{
    if w.is_cleared() {
        let f = w.finalized();
        if f.has_breakable() {
            let i = choose|i: int| breakable_row(f.objects, i);
            assert(breakable_row(f.objects, i));
            if i < w.objects.len() {
                assert(f.objects[i] == w.objects[i]);
                assert(breakable_row(w.objects, i));
            }
        }
    }
}

/// The check for a cleared level raises a flag only where none stands: it
/// keeps the world well-formed, leaves the screen alone and every object
/// where it was, and after it the only new flag, if any, has the handle
/// that was next.
pub proof fn lemma_flag_raised_once(w: WorldView, id: Entity)
    requires
        w.wf(),
        w.has_room(1),
    ensures
        w.finalized().wf(),
        w.finalized().state == w.state,
        w.has_at_most_one_flag() ==> w.finalized().has_at_most_one_flag(),
        w.is_cleared() ==> w.finalized().has_flag() && !w.finalized().is_cleared(),
        w.is_cleared() ==> !(w.kind_of(id) matches Some(Kind::Flag(_))),
        w.finalized().kind_of(id) matches Some(Kind::Flag(_)) ==> (w.kind_of(id) matches Some(
            Kind::Flag(_),
        )) || (w.is_cleared() && id == w.next_entity),
        forall|i: int| 0 <= i < w.objects.len() ==> w.finalized().objects[i] == w.objects[i],
{
    let f = w.finalized();
    if w.is_cleared() {
        let flag = flag_prefab().kind->Some_0;
        lemma_changes_keep_wf(w, 0, flag);
        let n = w.objects.len() as int;
        assert(flag_row(f.objects, n));
        assert forall|a: Entity| !(#[trigger] w.kind_of(a) matches Some(Kind::Flag(_))) by {
            if w.has(a) {
                let i = w.index_of(a);
                assert(w.holds_at(a, i));
                if w.objects[i].kind is Flag {
                    assert(flag_row(w.objects, i));
                }
            }
        }
        assert forall|a: Entity, b: Entity|
            (#[trigger] f.kind_of(a) matches Some(Kind::Flag(_))) && (#[trigger] f.kind_of(
                b,
            ) matches Some(Kind::Flag(_))) implies a == b by {
            lemma_spawn_keeps_others(w, flag, a);
            lemma_spawn_keeps_others(w, flag, b);
        }
        lemma_spawn_keeps_others(w, flag, id);
    }
}

/// The checks for the end of a level as one unit: the win, then the loss.
#[derive(Clone, Copy, Debug, PartialEq, Eq, Hash, Default)]
pub struct GameLogicPlugin;

impl GameLogicPlugin {
    /// Checks whether the level is cleared and then whether the player is
    /// stuck. Says what it found; never both.
    pub fn update(&self, world: &mut World) -> (found: (bool, bool))
        requires
            old(world).wf(),
            old(world)@.has_room(1),
        ensures
            final(world).wf(),
            final(world)@ == old(world)@.finalized().lost(),
            found.0 == old(world)@.is_cleared(),
            found.1 == old(world)@.finalized().is_deadlocked(),
            !(found.0 && found.1),
    {
        proof {
            lemma_win_excludes_loss(world@);
        }
        let raised = has_finalized(world);
        let lost = has_lose(world);
        (raised, lost)
    }
}

/// Raises the exit flag once no breakable is left, unless a flag already
/// stands. Says whether it raised one.
pub fn has_finalized(world: &mut World) -> (raised: bool)
    requires
        old(world).wf(),
        old(world)@.has_room(1),
    ensures
        final(world).wf(),
        raised == old(world)@.is_cleared(),
        final(world)@ == old(world)@.finalized(),
{
    if world.state().is_gameplay() && !world.any_breakable() && !world.any_flag() {
        world.place(describe_flag());
        true
    } else {
        false
    }
}

/// Ends the game once the player can no longer clear the level:
/// breakables are left, the player is out of bombs and no bomb's fuse
/// burns. Says whether it ended the game.
pub fn has_lose(world: &mut World) -> (lost: bool)
    requires
        old(world).wf(),
    ensures
        final(world).wf(),
        lost == old(world)@.is_deadlocked(),
        final(world)@ == old(world)@.lost(),
{
    if !world.state().is_gameplay() || !world.any_breakable() {
        return false;
    }
    match world.player() {
        Some((_, player)) => {
            if player.bomb_amount == 0 && !world.any_live_bomb() {
                world.set_state(GameState::GameOver);
                true
            } else {
                false
            }
        },
        None => false,
    }
}

} // verus!
