//! One tick of the simulation, with its systems in their order.

use vstd::prelude::*;
use crate::bomb::BombPlugin;
use crate::bomb::lemma_bombs_raise_no_flag;
use crate::collider::{
    lemma_blasts_raise_no_flag, lemma_destroyed_at_most_once, lemma_rules_keep_to_the_screens,
    lemma_rules_raise_no_flag, ColliderPlugin, CollisionEvent, Rolls,
};
use crate::logic::{lemma_flag_raised_once, GameLogicPlugin};
use crate::state::GameState;
use crate::world::{Entity, Kind, Vec3, World, WorldView};

verus! {

/// What the host knows at the start of a tick: the nanoseconds since the
/// tick before, whether the bomb key went down, where the player stands,
/// and what the physics engine reported.
#[derive(Clone, Debug, PartialEq, Eq)]
pub struct TickInput {
    pub dt: i64,
    pub bomb_key: bool,
    pub player_position: Vec3,
    pub collision_events: Vec<CollisionEvent>,
}

impl WorldView {
    /// The world as the rules find it in a tick: the fuses have burnt and
    /// the player had the chance to lay a bomb, whose fuse first burns in
    /// the next tick.
    pub open spec fn fuses_burnt(self, dt: int, bomb_key: bool, position: Vec3) -> WorldView {
        self.bombs_ticked(dt).bomb_dropped(bomb_key, dt, position)
    }

    /// The world after a whole tick. Fuses burn before a bomb is laid and
    /// before any report is answered; the four rules answer the reports
    /// one after the other, each all of them; and the level's end is
    /// checked last, the win before the loss.
    pub open spec fn ticked(
        self,
        dt: int,
        bomb_key: bool,
        position: Vec3,
        events: Seq<CollisionEvent>,
        drops: Seq<Option<u32>>,
        jingles: Seq<Option<u32>>,
    ) -> WorldView {
        self.before_checks(dt, bomb_key, position, events, drops, jingles).finalized().lost()
    }
}

/// A tick keeps to the graph of the screens: outside of play it changes
/// nothing at all; in play the game goes on, or ends lost, or the level is
/// cleared. No tick changes the level.
pub proof fn lemma_tick_keeps_to_the_screens(
    w: WorldView,
    dt: int,
    bomb_key: bool,
    position: Vec3,
    events: Seq<CollisionEvent>,
    drops: Seq<Option<u32>>,
    jingles: Seq<Option<u32>>,
)
    ensures
        !w.is_playing() ==> w.ticked(dt, bomb_key, position, events, drops, jingles) == w,
        w.state.stays_or_leads_to(w.ticked(dt, bomb_key, position, events, drops, jingles).state),
        w.is_playing() ==> ({
            let after = w.ticked(dt, bomb_key, position, events, drops, jingles).state;
            after == GameState::Gameplay || after == GameState::GameOver || after
                == GameState::NextLevel
        }),
        w.ticked(dt, bomb_key, position, events, drops, jingles).level == w.level,
{
    let burnt = w.fuses_burnt(dt, bomb_key, position);
    let picked = burnt.items_picked(events);
    let blasted = picked.blasts(events, drops);
    let hit = blasted.player_hits(events, jingles);
    let taken = hit.flags_taken(events);
    lemma_rules_keep_to_the_screens(burnt, events, drops);
    lemma_rules_keep_to_the_screens(picked, events, drops);
    lemma_rules_keep_to_the_screens(blasted, events, jingles);
    lemma_rules_keep_to_the_screens(hit, events, jingles);
}

impl WorldView {
    /// The world as the checks for the level's end find it in a tick.
    pub open spec fn before_checks(
        self,
        dt: int,
        bomb_key: bool,
        position: Vec3,
        events: Seq<CollisionEvent>,
        drops: Seq<Option<u32>>,
        jingles: Seq<Option<u32>>,
    ) -> WorldView {
        self.fuses_burnt(dt, bomb_key, position).collisions_resolved(events, drops, jingles)
    }
}

/// Nothing in a tick before the checks for the level's end raises a flag:
/// the world is well-formed then, has a handle left, and an object is a
/// flag only if it was one at the start of the tick.
pub proof fn lemma_only_the_check_raises_a_flag(
    w: WorldView,
    dt: int,
    bomb_key: bool,
    position: Vec3,
    events: Seq<CollisionEvent>,
    drops: Seq<Option<u32>>,
    jingles: Seq<Option<u32>>,
    id: Entity,
)
    requires
        w.wf(),
        w.has_room((events.len() + 2) as int),
    ensures
        w.before_checks(dt, bomb_key, position, events, drops, jingles).wf(),
        w.before_checks(dt, bomb_key, position, events, drops, jingles).has_room(1),
        w.before_checks(dt, bomb_key, position, events, drops, jingles).kind_of(id) matches Some(
            Kind::Flag(_),
        ) ==> w.kind_of(id) matches Some(Kind::Flag(_)),
{
    let smouldered = w.bombs_ticked(dt);
    lemma_bombs_raise_no_flag(w, bomb_key, dt, position, id);
    let burnt = smouldered.bomb_dropped(bomb_key, dt, position);
    lemma_bombs_raise_no_flag(smouldered, bomb_key, dt, position, id);
    let picked = burnt.items_picked(events);
    lemma_rules_raise_no_flag(burnt, events, drops, id);
    lemma_rules_keep_to_the_screens(burnt, events, drops);
    let blasted = picked.blasts(events, drops);
    lemma_blasts_raise_no_flag(picked, events, drops, id);
    lemma_destroyed_at_most_once(picked, events, drops, id);
    let hit = blasted.player_hits(events, jingles);
    lemma_rules_raise_no_flag(blasted, events, jingles, id);
    lemma_rules_keep_to_the_screens(blasted, events, jingles);
    lemma_rules_raise_no_flag(hit, events, jingles, id);
    lemma_rules_keep_to_the_screens(hit, events, jingles);
}

/// No tick leaves two flags standing where at most one stood: the only
/// system that raises a flag is the check for a cleared level, and it
/// raises one only where none stands.
pub proof fn lemma_tick_keeps_one_flag(
    w: WorldView,
    dt: int,
    bomb_key: bool,
    position: Vec3,
    events: Seq<CollisionEvent>,
    drops: Seq<Option<u32>>,
    jingles: Seq<Option<u32>>,
)
    requires
        w.wf(),
        w.has_room((events.len() + 2) as int),
        w.has_at_most_one_flag(),
    ensures
        w.ticked(dt, bomb_key, position, events, drops, jingles).wf(),
        w.ticked(dt, bomb_key, position, events, drops, jingles).has_at_most_one_flag(),
{
    let taken = w.before_checks(dt, bomb_key, position, events, drops, jingles);
    lemma_only_the_check_raises_a_flag(w, dt, bomb_key, position, events, drops, jingles, 0);
    assert forall|a: Entity| (#[trigger] taken.kind_of(a) matches Some(Kind::Flag(_)))
        implies w.kind_of(a) matches Some(Kind::Flag(_)) by {
        lemma_only_the_check_raises_a_flag(w, dt, bomb_key, position, events, drops, jingles, a);
    }
    assert(taken.has_at_most_one_flag());
    lemma_flag_raised_once(taken, 0);
    let checked = taken.finalized();
    let after = checked.lost();
    assert forall|a: Entity, b: Entity|
        (#[trigger] after.kind_of(a) matches Some(Kind::Flag(_))) && (#[trigger] after.kind_of(
            b,
        ) matches Some(Kind::Flag(_))) implies a == b by {
        assert(after.kind_of(a) == checked.kind_of(a));
        assert(after.kind_of(b) == checked.kind_of(b));
    }
}

/// Runs one tick: the fuses burn, the player may lay a bomb, the four
/// rules answer the reports of the physics engine, and the level's end is
/// checked. Returns what chance decided.
pub fn tick(world: &mut World, input: &TickInput) -> (rolls: Rolls)
    requires
        old(world).wf(),
        old(world)@.has_room((input.collision_events@.len() + 2) as int),
    ensures
        final(world).wf(),
        old(world)@.fuses_burnt(input.dt as int, input.bomb_key, input.player_position).chance_fits(
            input.collision_events@,
            rolls.drops@,
            rolls.jingles@,
        ),
        final(world)@ == old(world)@.ticked(
            input.dt as int,
            input.bomb_key,
            input.player_position,
            input.collision_events@,
            rolls.drops@,
            rolls.jingles@,
        ),
{
    BombPlugin.update(world, input.bomb_key, input.dt, input.player_position);
    let rolls = ColliderPlugin.update(world, &input.collision_events);
    GameLogicPlugin.update(world);
    rolls
}

} // verus!
