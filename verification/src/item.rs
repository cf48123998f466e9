//! The systems around pickups: picking them up, and the explosions that
//! leave them behind.

use vstd::prelude::*;
use crate::collider::{
    explosion_collision_listener, player_and_item_collision_listener, CollisionEvent,
};
use crate::world::World;

verus! {

/// The pickup systems as one unit: the pass of the first rule, then the
/// pass of the second.
#[derive(Clone, Copy, Debug, PartialEq, Eq, Hash, Default)]
pub struct ItemPlugin;

impl ItemPlugin {
    /// Answers the reports of a tick by the first rule and then by the
    /// second, and returns the drop rolls made, report by report.
    pub fn update(&self, world: &mut World, collision_events: &Vec<CollisionEvent>) -> (rolls: Vec<
        Option<u32>,
    >)
        requires
            old(world).wf(),
            old(world)@.has_room(collision_events@.len() as int),
        ensures
            final(world).wf(),
            old(world)@.items_picked(collision_events@).rolls_fit(collision_events@, rolls@),
            final(world)@ == old(world)@.items_picked(collision_events@).blasts(
                collision_events@,
                rolls@,
            ),
    {
        player_and_item_collision_listener(world, collision_events);
        explosion_collision_listener(world, collision_events)
    }
}

} // verus!
