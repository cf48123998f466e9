//! Overlap notifications and the rules that answer them.
//!
//! The physics engine reports pairs of handles whose colliders began or
//! ceased to overlap. Four rules answer the reports of one tick, each in a
//! pass of its own over all of them: the player picks up an item, a primed
//! bomb destroys a breakable, a primed bomb kills the player, the player
//! reaches the flag. An object that one report removed is gone for every
//! later report and rule of the tick.

use vstd::prelude::*;
use crate::audio::{game_over_pick, game_over_sound, Sound};
use crate::constants::{DROP_ROLL_SIDES, GAME_OVER_SOUNDS};
use crate::state::GameState;
use crate::utils::{drop_upgrade, random_below};
use crate::utils::{custom_prefab, upgrade_props};
use crate::world::{
    breakable_row, lemma_changes_keep_wf, lemma_despawn_keeps_others, lemma_index_unique,
    lemma_others_leave_the_player, lemma_next_is_fresh, lemma_player_gets_new_data, lemma_replace_keeps_others,
    lemma_spawn_keeps_others, Command, Entity, Kind, World, WorldView,
};

verus! {

/// What a pickup does for the player.
#[derive(Clone, Copy, Debug, PartialEq, Eq, Hash, Structural)]
pub enum UpgradeType {
    Bomb,
    Fire,
    Speed,
    Nothing,
}

/// A pickup lying on the map.
#[derive(Clone, Copy, Debug, PartialEq, Eq, Structural)]
pub struct InteractiveItem {
    pub upgrade: UpgradeType,
}

/// A report of the physics engine about two objects.
#[derive(Clone, Copy, Debug, PartialEq, Eq, Structural)]
pub enum CollisionEvent {
    /// The two began to overlap.
    Started(Entity, Entity),
    /// The two ceased to overlap. No rule answers this.
    Stopped(Entity, Entity),
}

impl WorldView {
    /// The object that met the player in the pair `a`, `b`, if exactly one
    /// player exists and is one of the two.
    pub open spec fn player_partner(self, a: Entity, b: Entity) -> Option<Entity> {
        match self.sole_player_id() {
            Some(player) => if a == player {
                Some(b)
            } else if b == player {
                Some(a)
            } else {
                None
            },
            None => None,
        }
    }

    /// The world after the object `id` was hit: it is gone, the host is
    /// told to remove it and to play `sound`. Hitting an absent object
    /// changes nothing.
    pub open spec fn item_collided(self, id: Entity, sound: Sound) -> WorldView {
        if self.has(id) {
            self.despawned(id).emitted(Command::Despawn(id)).emitted(Command::PlaySound(sound))
        } else {
            self
        }
    }

    /// The item the player picks up on `event`, if any: play runs, the
    /// two began to overlap, one of them is the only player and the other
    /// is an item.
    pub open spec fn picked_item(self, event: CollisionEvent) -> Option<Entity> {
        match event {
            CollisionEvent::Started(a, b) => match self.player_partner(a, b) {
                Some(other) => if self.is_playing() && self.kind_of(other) matches Some(
                    Kind::Item(_),
                ) {
                    Some(other)
                } else {
                    None
                },
                None => None,
            },
            CollisionEvent::Stopped(_, _) => None,
        }
    }

    /// The world after the first rule answered `event`: a picked-up item
    /// is gone and heard, and the player has its upgrade.
    pub open spec fn item_picked(self, event: CollisionEvent) -> WorldView {
        match self.picked_item(event) {
            Some(item) => self.item_collided(item, Sound::GetItem).with_kind(
                self.sole_player_id()->Some_0,
                Kind::Player(
                    self.sole_player()->Some_0.upgraded(self.kind_of(item)->Some_0->Item_0.upgrade),
                ),
            ),
            None => self,
        }
    }

    /// The world after the first rule answered `events` in order.
    pub open spec fn items_picked(self, events: Seq<CollisionEvent>) -> WorldView
        decreases events.len(),
    {
        if events.len() == 0 {
            self
        } else {
            self.items_picked(events.drop_last()).item_picked(events.last())
        }
    }

    /// The breakable that `event` destroys, if any: play runs and the two
    /// began to overlap, one a bomb whose hit region is on, the other a
    /// breakable.
    pub open spec fn blast_target(self, event: CollisionEvent) -> Option<Entity> {
        match event {
            CollisionEvent::Started(a, b) => if !self.is_playing() {
                None
            } else if self.is_primed_bomb(a) && self.kind_of(b) matches Some(Kind::Breakable(_)) {
                Some(b)
            } else if self.is_primed_bomb(b) && self.kind_of(a) matches Some(Kind::Breakable(_)) {
                Some(a)
            } else {
                None
            },
            CollisionEvent::Stopped(_, _) => None,
        }
    }

    /// Whether `roll` is what the second rule rolls on `event`: a number
    /// below one hundred if the event destroys a breakable, and no roll
    /// at all if it does not.
    pub open spec fn roll_fits(self, event: CollisionEvent, roll: Option<u32>) -> bool {
        match self.blast_target(event) {
            Some(_) => roll matches Some(r) && r < DROP_ROLL_SIDES,
            None => roll is None,
        }
    }

    /// The world after the second rule answered `event` with the drop
    /// roll `roll`: a destroyed breakable is gone and heard, and what its
    /// table gives for the roll lies in its place.
    pub open spec fn blasted(self, event: CollisionEvent, roll: Option<u32>) -> WorldView {
        match (self.blast_target(event), roll) {
            (Some(target), Some(r)) => {
                let breakable = self.kind_of(target)->Some_0->Breakable_0;
                self.item_collided(target, Sound::BombExplosion).upgrade_dropped(
                    breakable.position,
                    breakable.drops,
                    r,
                )
            },
            (Some(target), None) => self.item_collided(target, Sound::BombExplosion),
            (None, _) => self,
        }
    }

    /// The world after the second rule answered `events` in order, with
    /// `rolls[i]` the roll made on `events[i]`.
    pub open spec fn blasts(self, events: Seq<CollisionEvent>, rolls: Seq<Option<u32>>) -> WorldView
        decreases events.len(),
    {
        if events.len() == 0 {
            self
        } else {
            self.blasts(events.drop_last(), rolls.drop_last()).blasted(events.last(), rolls.last())
        }
    }

    /// Whether `rolls` holds, event by event, what the second rule rolls
    /// on `events`: one roll for each destroyed breakable and none
    /// otherwise.
    pub open spec fn rolls_fit(self, events: Seq<CollisionEvent>, rolls: Seq<Option<u32>>) -> bool
        decreases events.len(),
    {
        &&& rolls.len() == events.len()
        &&& events.len() > 0 ==> {
            &&& self.rolls_fit(events.drop_last(), rolls.drop_last())
            &&& self.blasts(events.drop_last(), rolls.drop_last()).roll_fits(
                events.last(),
                rolls.last(),
            )
        }
    }

    /// Whether `event` kills the player: play runs, the two began to
    /// overlap, one of them is the only player and the other a bomb whose
    /// hit region is on.
    pub open spec fn is_deadly(self, event: CollisionEvent) -> bool {
        match event {
            CollisionEvent::Started(a, b) => match self.player_partner(a, b) {
                Some(other) => self.is_playing() && self.is_primed_bomb(other),
                None => false,
            },
            CollisionEvent::Stopped(_, _) => false,
        }
    }

    /// Whether `pick` is what the third rule picks on `event`: one of the
    /// game-over jingles if the event kills the player, and no pick at
    /// all if it does not.
    pub open spec fn pick_fits(self, event: CollisionEvent, pick: Option<u32>) -> bool {
        if self.is_deadly(event) {
            pick matches Some(p) && p < GAME_OVER_SOUNDS
        } else {
            pick is None
        }
    }

    /// The world after the third rule answered `event` with the jingle
    /// `pick`: a killed player is gone, the jingle is played and the game
    /// is over.
    pub open spec fn player_hit(self, event: CollisionEvent, pick: Option<u32>) -> WorldView {
        if self.is_deadly(event) {
            self.item_collided(
                self.sole_player_id()->Some_0,
                game_over_pick(
                    match pick {
                        Some(p) => p,
                        None => 0,
                    },
                ),
            ).with_state(GameState::GameOver)
        } else {
            self
        }
    }

    /// The world after the third rule answered `events` in order, with
    /// `picks[i]` the pick made on `events[i]`.
    pub open spec fn player_hits(self, events: Seq<CollisionEvent>, picks: Seq<Option<u32>>) -> WorldView
        decreases events.len(),
    {
        if events.len() == 0 {
            self
        } else {
            self.player_hits(events.drop_last(), picks.drop_last()).player_hit(
                events.last(),
                picks.last(),
            )
        }
    }

    /// Whether `picks` holds, event by event, what the third rule picks
    /// on `events`.
    pub open spec fn picks_fit(self, events: Seq<CollisionEvent>, picks: Seq<Option<u32>>) -> bool
        decreases events.len(),
    {
        &&& picks.len() == events.len()
        &&& events.len() > 0 ==> {
            &&& self.picks_fit(events.drop_last(), picks.drop_last())
            &&& self.player_hits(events.drop_last(), picks.drop_last()).pick_fits(
                events.last(),
                picks.last(),
            )
        }
    }

    /// The flag the player reaches on `event`, if any: play runs, the two
    /// began to overlap, one of them is the only player and the other a
    /// flag.
    pub open spec fn reached_flag(self, event: CollisionEvent) -> Option<Entity> {
        match event {
            CollisionEvent::Started(a, b) => match self.player_partner(a, b) {
                Some(other) => if self.is_playing() && self.kind_of(other) matches Some(
                    Kind::Flag(_),
                ) {
                    Some(other)
                } else {
                    None
                },
                None => None,
            },
            CollisionEvent::Stopped(_, _) => None,
        }
    }

    /// The world after the fourth rule answered `event`: a reached flag is
    /// gone, the win is heard and the level is cleared.
    pub open spec fn flag_taken(self, event: CollisionEvent) -> WorldView {
        match self.reached_flag(event) {
            Some(flag) => self.item_collided(flag, Sound::WonLevel).with_state(
                GameState::NextLevel,
            ),
            None => self,
        }
    }

    /// The world after the fourth rule answered `events` in order.
    pub open spec fn flags_taken(self, events: Seq<CollisionEvent>) -> WorldView
        decreases events.len(),
    {
        if events.len() == 0 {
            self
        } else {
            self.flags_taken(events.drop_last()).flag_taken(events.last())
        }
    }
}

impl WorldView {
    /// What the object `id` is after the second rule answered `event` with
    /// the drop roll `roll`: a destroyed breakable is nothing any more, the
    /// handle that was next names the pickup that was dropped, if one was,
    /// and every other object is what it was.
    pub open spec fn kind_after_blast(
        self,
        event: CollisionEvent,
        roll: Option<u32>,
        id: Entity,
    ) -> Option<Kind> {
        match (self.blast_target(event), roll) {
            (Some(target), _) if id == target => None,
            (Some(target), Some(r)) if id == self.next_entity => {
                let upgrade = self.kind_of(target)->Some_0->Breakable_0.drops.upgrade_for(r);
                if upgrade == UpgradeType::Nothing {
                    None
                } else {
                    Some(Kind::Item(InteractiveItem { upgrade }))
                }
            },
            _ => self.kind_of(id),
        }
    }

    /// How many of `events` destroy the object `id` under the second
    /// rule.
    pub open spec fn times_blasted(
        self,
        events: Seq<CollisionEvent>,
        rolls: Seq<Option<u32>>,
        id: Entity,
    ) -> nat
        decreases events.len(),
    {
        if events.len() == 0 {
            0
        } else {
            self.times_blasted(events.drop_last(), rolls.drop_last(), id) + (if self.blasts(
                events.drop_last(),
                rolls.drop_last(),
            ).blast_target(events.last()) == Some(id) {
                1nat
            } else {
                0nat
            })
        }
    }
}

/// What the second rule's answer to one report does to the table: the
/// world stays well-formed, at most one handle is used, the screen stays,
/// and each object is afterwards what [`WorldView::kind_after_blast`]
/// says. So a destroyed breakable was there and is gone, and no object
/// that was gone before is back.
pub proof fn lemma_blast_removes_for_good(
    w: WorldView,
    event: CollisionEvent,
    roll: Option<u32>,
    id: Entity,
)
    requires
        w.wf(),
        w.has_room(1),
    ensures
        w.blasted(event, roll).wf(),
        w.next_entity <= w.blasted(event, roll).next_entity <= w.next_entity + 1,
        w.blasted(event, roll).state == w.state,
        w.blasted(event, roll).kind_of(id) == w.kind_after_blast(event, roll, id),
        w.blast_target(event) == Some(id) ==> w.has(id) && id < w.next_entity && !w.blasted(
            event,
            roll,
        ).has(id),
        id < w.next_entity && !w.has(id) ==> !w.blasted(event, roll).has(id),
{
    lemma_next_is_fresh(w);
    match w.blast_target(event) {
        Some(target) => {
            assert(w.has(target));
            let row = w.index_of(target);
            assert(w.holds_at(target, row));
            assert(w.objects[row].id < w.next_entity);
            let breakable = w.kind_of(target)->Some_0->Breakable_0;
            let cleared = w.item_collided(target, Sound::BombExplosion);
            lemma_despawn_keeps_others(w, target, id);
            assert(cleared.objects == w.despawned(target).objects);
            assert(cleared.wf());
            match roll {
                Some(r) => {
                    let upgrade = breakable.drops.upgrade_for(r);
                    if upgrade != UpgradeType::Nothing {
                        let props = upgrade_props(upgrade);
                        let prefab = custom_prefab(props, props.custom->Some_0, breakable.position);
                        let item = Kind::Item(InteractiveItem { upgrade });
                        assert(prefab.kind == Some(item));
                        lemma_changes_keep_wf(cleared, target, item);
                        lemma_spawn_keeps_others(cleared, item, id);
                        assert(w.blasted(event, roll).objects == cleared.spawned(item).objects);
                    }
                },
                None => {},
            }
        },
        None => {},
    }
}

/// Over the reports of one tick the second rule destroys no object twice:
/// a breakable that two primed bombs overlap in the same tick is removed
/// on the first report, is gone for the second, and never comes back. As
/// a drop is rolled only on a report that destroys a breakable, one roll
/// at most is made for it.
pub proof fn lemma_destroyed_at_most_once(
    w: WorldView,
    events: Seq<CollisionEvent>,
    rolls: Seq<Option<u32>>,
    id: Entity,
)
    requires
        w.wf(),
        w.has_room(events.len() as int),
    ensures
        w.blasts(events, rolls).wf(),
        w.next_entity <= w.blasts(events, rolls).next_entity <= w.next_entity + events.len(),
        w.blasts(events, rolls).state == w.state,
        w.times_blasted(events, rolls, id) <= 1,
        w.times_blasted(events, rolls, id) == 1 ==> w.has(id) && !w.blasts(events, rolls).has(id),
        id < w.next_entity && !w.has(id) ==> !w.blasts(events, rolls).has(id),
    decreases events.len(),
{
    if events.len() > 0 {
        let before = w.blasts(events.drop_last(), rolls.drop_last());
        lemma_destroyed_at_most_once(w, events.drop_last(), rolls.drop_last(), id);
        lemma_blast_removes_for_good(before, events.last(), rolls.last(), id);
        if before.blast_target(events.last()) == Some(id) {
            if !w.has(id) {
                if id < w.next_entity {
                    assert(!before.has(id));
                } else {
                    lemma_not_yet_breakable(w, events.drop_last(), rolls.drop_last(), id);
                }
            }
        }
    }
}

/// An object that the second rule creates over the reports of one tick is
/// a pickup: a handle that was not yet handed out names no breakable and
/// no bomb afterwards.
pub proof fn lemma_not_yet_breakable(
    w: WorldView,
    events: Seq<CollisionEvent>,
    rolls: Seq<Option<u32>>,
    id: Entity,
)
    requires
        w.wf(),
        w.has_room(events.len() as int),
        id >= w.next_entity,
    ensures
        w.blasts(events, rolls).kind_of(id) is None || w.blasts(events, rolls).kind_of(id)
            matches Some(Kind::Item(_)),
    decreases events.len(),
{
    if events.len() == 0 {
        lemma_next_is_fresh(w);
        if w.has(id) {
            let row = w.index_of(id);
            assert(w.holds_at(id, row));
            assert(w.objects[row].id < w.next_entity);
        }
    } else {
        let before = w.blasts(events.drop_last(), rolls.drop_last());
        lemma_not_yet_breakable(w, events.drop_last(), rolls.drop_last(), id);
        lemma_destroyed_at_most_once(w, events.drop_last(), rolls.drop_last(), id);
        lemma_blast_removes_for_good(before, events.last(), rolls.last(), id);
    }
}

/// Two primed bombs that overlap the same breakable in one tick destroy
/// it once: the first report removes it and rolls for its drop, the
/// second finds it gone and rolls nothing.
pub proof fn lemma_two_bombs_one_breakable(
    w: WorldView,
    first: Entity,
    second: Entity,
    breakable: Entity,
    rolls: Seq<Option<u32>>,
)
    requires
        w.wf(),
        w.has_room(2),
        w.is_playing(),
        w.is_primed_bomb(first),
        w.is_primed_bomb(second),
        w.kind_of(breakable) matches Some(Kind::Breakable(_)),
        w.rolls_fit(
            seq![
                CollisionEvent::Started(first, breakable),
                CollisionEvent::Started(second, breakable),
            ],
            rolls,
        ),
    ensures
        rolls.len() == 2,
        rolls[0] is Some,
        rolls[1] is None,
        ({
            let events = seq![
                CollisionEvent::Started(first, breakable),
                CollisionEvent::Started(second, breakable),
            ];
            &&& w.times_blasted(events, rolls, breakable) == 1
            &&& !w.blasts(events, rolls).has(breakable)
            &&& w.blasts(events, rolls) == w.blasted(events[0], rolls[0])
        }),
{
    let events = seq![
        CollisionEvent::Started(first, breakable),
        CollisionEvent::Started(second, breakable),
    ];
    let one = events.drop_last();
    let none = one.drop_last();
    assert(one.len() == 1 && none.len() == 0);
    assert(one.last() == events[0]);
    assert(events.last() == events[1]);
    let rolls_one = rolls.drop_last();
    let rolls_none = rolls_one.drop_last();
    assert(w.rolls_fit(one, rolls_one));
    assert(w.blasts(none, rolls_none) == w);
    assert(w.blasts(one, rolls_one) == w.blasted(events[0], rolls_one.last()));
    assert(rolls_one.last() == rolls[0]);
    assert(rolls.last() == rolls[1]);
    assert(w.blast_target(events[0]) == Some(breakable));
    let mid = w.blasted(events[0], rolls[0]);
    lemma_blast_removes_for_good(w, events[0], rolls[0], breakable);
    assert(!mid.has(breakable));
    assert(mid.kind_of(breakable) is None);
    assert(mid.blast_target(events[1]) is None) by {
        if mid.is_primed_bomb(breakable) {
            assert(mid.kind_of(breakable) is Some);
        }
    }
    assert(w.times_blasted(none, rolls_none, breakable) == 0);
    assert(w.times_blasted(one, rolls_one, breakable) == 1);
}

/// Two primed bombs, each overlapping one of the only two breakables of a
/// level, clear the level of breakables in one tick: each report destroys
/// its breakable once and rolls for its drop, no breakable is left
/// afterwards, and play goes on.
pub proof fn lemma_two_bombs_two_breakables(
    w: WorldView,
    bombs: (Entity, Entity),
    breakables: (Entity, Entity),
    rolls: Seq<Option<u32>>,
)
    requires
        w.wf(),
        w.has_room(2),
        w.is_playing(),
        w.is_primed_bomb(bombs.0),
        w.is_primed_bomb(bombs.1),
        w.kind_of(breakables.0) matches Some(Kind::Breakable(_)),
        w.kind_of(breakables.1) matches Some(Kind::Breakable(_)),
        breakables.0 != breakables.1,
        forall|id: Entity|
            (#[trigger] w.kind_of(id) matches Some(Kind::Breakable(_))) ==> id == breakables.0 || id
                == breakables.1,
        w.rolls_fit(
            seq![
                CollisionEvent::Started(bombs.0, breakables.0),
                CollisionEvent::Started(bombs.1, breakables.1),
            ],
            rolls,
        ),
    ensures
        rolls.len() == 2,
        rolls[0] is Some,
        rolls[1] is Some,
        ({
            let events = seq![
                CollisionEvent::Started(bombs.0, breakables.0),
                CollisionEvent::Started(bombs.1, breakables.1),
            ];
            let after = w.blasts(events, rolls);
            &&& after.wf()
            &&& w.times_blasted(events, rolls, breakables.0) == 1
            &&& w.times_blasted(events, rolls, breakables.1) == 1
            &&& !after.has(breakables.0)
            &&& !after.has(breakables.1)
            &&& !after.has_breakable()
            &&& after.state == GameState::Gameplay
        }),
{
    let events = seq![
        CollisionEvent::Started(bombs.0, breakables.0),
        CollisionEvent::Started(bombs.1, breakables.1),
    ];
    let one = events.drop_last();
    let none = one.drop_last();
    assert(one.len() == 1 && none.len() == 0);
    assert(one.last() == events[0]);
    assert(events.last() == events[1]);
    let rolls_one = rolls.drop_last();
    let rolls_none = rolls_one.drop_last();
    assert(w.rolls_fit(one, rolls_one));
    assert(w.blasts(none, rolls_none) == w);
    assert(w.blasts(one, rolls_one) == w.blasted(events[0], rolls_one.last()));
    assert(rolls_one.last() == rolls[0]);
    assert(rolls.last() == rolls[1]);
    assert(w.blast_target(events[0]) == Some(breakables.0));
    let mid = w.blasted(events[0], rolls[0]);
    lemma_blast_removes_for_good(w, events[0], rolls[0], breakables.0);
    lemma_blast_removes_for_good(w, events[0], rolls[0], breakables.1);
    lemma_blast_removes_for_good(w, events[0], rolls[0], bombs.1);
    lemma_next_is_fresh(w);
    assert(mid.blast_target(events[1]) == Some(breakables.1));
    let after = mid.blasted(events[1], rolls[1]);
    assert(after == w.blasts(events, rolls));
    lemma_blast_removes_for_good(mid, events[1], rolls[1], breakables.0);
    lemma_blast_removes_for_good(mid, events[1], rolls[1], breakables.1);
    assert(w.times_blasted(none, rolls_none, breakables.0) == 0);
    assert(w.times_blasted(none, rolls_none, breakables.1) == 0);
    assert(w.times_blasted(one, rolls_one, breakables.0) == 1);
    assert(w.times_blasted(one, rolls_one, breakables.1) == 0);
    if after.has_breakable() {
        let row = choose|row: int| breakable_row(after.objects, row);
        assert(breakable_row(after.objects, row));
        let id = after.objects[row].id;
        assert(after.holds_at(id, row));
        lemma_index_unique(after, id, row);
        lemma_blast_removes_for_good(mid, events[1], rolls[1], id);
        lemma_blast_removes_for_good(w, events[0], rolls[0], id);
    }
}

/// What a pickup does to the player and the table: the item is gone, the
/// host is told once to remove it, and the same player is alone in the
/// table with the item's upgrade applied once. A report on which nothing
/// is picked up changes nothing.
pub proof fn lemma_pickup_applies_once(w: WorldView, event: CollisionEvent)
    requires
        w.wf(),
    ensures
        w.item_picked(event).wf(),
        match w.picked_item(event) {
            Some(item) => {
                &&& w.has(item)
                &&& !w.item_picked(event).has(item)
                &&& w.item_picked(event).sole_player_id() == w.sole_player_id()
                &&& w.item_picked(event).sole_player() == Some(
                    w.sole_player()->Some_0.upgraded(w.kind_of(item)->Some_0->Item_0.upgrade),
                )
                &&& w.item_picked(event).commands == w.commands.push(Command::Despawn(item)).push(
                    Command::PlaySound(Sound::GetItem),
                )
                &&& w.item_picked(event).picked_item(event) is None
            },
            None => w.item_picked(event) == w,
        },
{
    match w.picked_item(event) {
        Some(item) => {
            let player = w.sole_player()->Some_0;
            let id = w.sole_player_id()->Some_0;
            let upgraded = player.upgraded(w.kind_of(item)->Some_0->Item_0.upgrade);
            let taken = w.item_collided(item, Sound::GetItem);
            lemma_changes_keep_wf(w, item, Kind::Player(upgraded));
            lemma_despawn_keeps_others(w, item, item);
            lemma_despawn_keeps_others(w, item, id);
            lemma_others_leave_the_player(w, item, Kind::Player(upgraded));
            assert(taken.objects == w.despawned(item).objects);
            assert(taken.wf());
            assert(taken.has_sole_player());
            assert(taken.sole_player_id() == Some(id));
            lemma_player_gets_new_data(taken, upgraded);
            lemma_changes_keep_wf(taken, id, Kind::Player(upgraded));
            lemma_replace_keeps_others(taken, id, Kind::Player(upgraded), item);
            let after = w.item_picked(event);
            assert(after.kind_of(item) is None);
        },
        None => {},
    }
}

/// Neither the first, the third nor the fourth rule raises a flag: after
/// any of them answered the reports of a tick the world is well-formed,
/// and an object is a flag only if it was one before.
pub proof fn lemma_rules_raise_no_flag(
    w: WorldView,
    events: Seq<CollisionEvent>,
    picks: Seq<Option<u32>>,
    id: Entity,
)
    requires
        w.wf(),
    ensures
        w.items_picked(events).wf(),
        w.player_hits(events, picks).wf(),
        w.flags_taken(events).wf(),
        w.items_picked(events).kind_of(id) matches Some(Kind::Flag(_)) ==> w.kind_of(id)
            matches Some(Kind::Flag(_)),
        w.player_hits(events, picks).kind_of(id) matches Some(Kind::Flag(_)) ==> w.kind_of(id)
            matches Some(Kind::Flag(_)),
        w.flags_taken(events).kind_of(id) matches Some(Kind::Flag(_)) ==> w.kind_of(id)
            matches Some(Kind::Flag(_)),
    decreases events.len(),
{
    if events.len() > 0 {
        let event = events.last();
        lemma_rules_raise_no_flag(w, events.drop_last(), picks.drop_last(), id);
        lemma_pickup_raises_no_flag(w.items_picked(events.drop_last()), event, id);
        lemma_hit_raises_no_flag(
            w.player_hits(events.drop_last(), picks.drop_last()),
            event,
            picks.last(),
            id,
        );
        lemma_reached_flag_raises_none(w.flags_taken(events.drop_last()), event, id);
    }
}

impl CollisionEvent {
    /// Whether the report is about the object `id`.
    pub open spec fn mentions(self, id: Entity) -> bool {
        match self {
            CollisionEvent::Started(a, b) => a == id || b == id,
            CollisionEvent::Stopped(a, b) => a == id || b == id,
        }
    }
}

impl WorldView {
    /// What the object `id` is after the first rule answered `event`: a
    /// picked-up item is nothing any more, the player has its upgrade, and
    /// every other object is what it was.
    pub open spec fn kind_after_pickup(self, event: CollisionEvent, id: Entity) -> Option<Kind> {
        match self.picked_item(event) {
            Some(item) => if id == item {
                None
            } else if Some(id) == self.sole_player_id() {
                Some(
                    Kind::Player(
                        self.sole_player()->Some_0.upgraded(
                            self.kind_of(item)->Some_0->Item_0.upgrade,
                        ),
                    ),
                )
            } else {
                self.kind_of(id)
            },
            None => self.kind_of(id),
        }
    }
}

/// What the first rule's answer to one report does to the table: each
/// object is afterwards what [`WorldView::kind_after_pickup`] says, and the
/// item picked up is one of the two objects of the report.
pub proof fn lemma_pickup_frame(w: WorldView, event: CollisionEvent, id: Entity)
    requires
        w.wf(),
    ensures
        w.item_picked(event).wf(),
        w.item_picked(event).kind_of(id) == w.kind_after_pickup(event, id),
        w.item_picked(event).sole_player_id() == w.sole_player_id(),
        w.picked_item(event) matches Some(item) ==> event.mentions(item) && Some(item)
            != w.sole_player_id(),
{
    lemma_pickup_applies_once(w, event);
    match w.picked_item(event) {
        Some(item) => {
            let player = w.sole_player_id()->Some_0;
            let taken = w.item_collided(item, Sound::GetItem);
            let upgraded = Kind::Player(
                w.sole_player()->Some_0.upgraded(w.kind_of(item)->Some_0->Item_0.upgrade),
            );
            let i = w.sole_player_index();
            assert(w.holds_at(player, i));
            lemma_index_unique(w, player, i);
            lemma_changes_keep_wf(w, item, upgraded);
            lemma_despawn_keeps_others(w, item, id);
            lemma_despawn_keeps_others(w, item, player);
            assert(taken.objects == w.despawned(item).objects);
            lemma_replace_keeps_others(taken, player, upgraded, id);
        },
        None => {},
    }
}

/// The first rule's answer to one report raises no flag.
pub proof fn lemma_pickup_raises_no_flag(w: WorldView, event: CollisionEvent, id: Entity)
    requires
        w.wf(),
    ensures
        w.item_picked(event).wf(),
        w.item_picked(event).kind_of(id) matches Some(Kind::Flag(_)) ==> w.kind_of(id) matches Some(
            Kind::Flag(_),
        ),
{
    lemma_pickup_frame(w, event, id);
}

/// The first rule leaves alone what no report is about: over the reports
/// of a tick the same player, if any, stays the only one, and an object
/// that is not that player and that no report names is afterwards what it
/// was.
pub proof fn lemma_pickups_leave_others(w: WorldView, events: Seq<CollisionEvent>, id: Entity)
    requires
        w.wf(),
    ensures
        w.items_picked(events).wf(),
        w.items_picked(events).sole_player_id() == w.sole_player_id(),
        Some(id) != w.sole_player_id() && (forall|i: int|
            0 <= i < events.len() ==> !(#[trigger] events[i]).mentions(id)) ==> w.items_picked(
            events,
        ).kind_of(id) == w.kind_of(id),
    decreases events.len(),
{
    if events.len() > 0 {
        let before = w.items_picked(events.drop_last());
        lemma_pickups_leave_others(w, events.drop_last(), id);
        lemma_pickup_frame(before, events.last(), id);
        if Some(id) != w.sole_player_id() && (forall|i: int|
            0 <= i < events.len() ==> !(#[trigger] events[i]).mentions(id)) {
            assert forall|i: int| 0 <= i < events.drop_last().len() implies !(
            #[trigger] events.drop_last()[i]).mentions(id) by {
                assert(events.drop_last()[i] == events[i]);
            }
            assert(!events[events.len() - 1].mentions(id));
        }
    }
}

/// Pickups add up at the player: when the only player began to overlap
/// each of `items`, all different and all pickups of the same upgrade, in
/// the reports of one tick, every one of them is gone afterwards and the
/// player has the upgrade as many times as there are items.
pub proof fn lemma_pickups_add_up(
    w: WorldView,
    events: Seq<CollisionEvent>,
    items: Seq<Entity>,
    upgrade: UpgradeType,
)
    requires
        w.wf(),
        w.is_playing(),
        w.has_sole_player(),
        items.len() == events.len(),
        forall|i: int|
            0 <= i < events.len() ==> (#[trigger] events[i]) == CollisionEvent::Started(
                w.sole_player_id()->Some_0,
                items[i],
            ) || events[i] == CollisionEvent::Started(items[i], w.sole_player_id()->Some_0),
        forall|i: int, j: int| 0 <= i < j < items.len() ==> items[i] != items[j],
        forall|i: int|
            0 <= i < items.len() ==> w.kind_of(#[trigger] items[i]) == Some(
                Kind::Item(InteractiveItem { upgrade }),
            ),
    ensures
        w.items_picked(events).wf(),
        w.items_picked(events).sole_player_id() == w.sole_player_id(),
        w.items_picked(events).sole_player() == Some(
            w.sole_player()->Some_0.upgraded_times(upgrade, events.len()),
        ),
        forall|i: int| 0 <= i < items.len() ==> !w.items_picked(events).has(#[trigger] items[i]),
    decreases events.len(),
{
    let player = w.sole_player_id()->Some_0;
    let row = w.sole_player_index();
    assert(w.holds_at(player, row));
    lemma_index_unique(w, player, row);
    if events.len() > 0 {
        let last = events.len() - 1;
        let item = items[last];
        let before = w.items_picked(events.drop_last());
        assert forall|i: int| 0 <= i < events.drop_last().len() implies (
        #[trigger] events.drop_last()[i]) == CollisionEvent::Started(player, items.drop_last()[i])
            || events.drop_last()[i] == CollisionEvent::Started(items.drop_last()[i], player) by {
            assert(events.drop_last()[i] == events[i]);
            assert(items.drop_last()[i] == items[i]);
        }
        assert forall|i: int| 0 <= i < items.drop_last().len() implies w.kind_of(
            #[trigger] items.drop_last()[i],
        ) == Some(Kind::Item(InteractiveItem { upgrade })) by {
            assert(items.drop_last()[i] == items[i]);
        }
        lemma_pickups_add_up(w, events.drop_last(), items.drop_last(), upgrade);
        lemma_rules_keep_to_the_screens(w, events.drop_last(), Seq::empty());
        assert(w.kind_of(item) == Some(Kind::Item(InteractiveItem { upgrade })));
        assert forall|i: int| 0 <= i < events.drop_last().len() implies !(
        #[trigger] events.drop_last()[i]).mentions(item) by {
            assert(events.drop_last()[i] == events[i]);
            assert(items[i] != item);
        }
        lemma_pickups_leave_others(w, events.drop_last(), item);
        assert(before.kind_of(item) == w.kind_of(item));
        assert(before.picked_item(events[last]) == Some(item));
        lemma_pickup_applies_once(before, events[last]);
        assert forall|i: int| 0 <= i < items.len() implies !w.items_picked(events).has(
            #[trigger] items[i],
        ) by {
            lemma_pickup_frame(before, events[last], items[i]);
            if i < last {
                assert(items.drop_last()[i] == items[i]);
                assert(!before.has(items[i]));
            }
        }
    }
}

/// The third rule's answer to one report raises no flag.
pub proof fn lemma_hit_raises_no_flag(
    w: WorldView,
    event: CollisionEvent,
    pick: Option<u32>,
    id: Entity,
)
    requires
        w.wf(),
    ensures
        w.player_hit(event, pick).wf(),
        w.player_hit(event, pick).kind_of(id) matches Some(Kind::Flag(_)) ==> w.kind_of(id)
            matches Some(Kind::Flag(_)),
{
    if w.is_deadly(event) {
        let player = w.sole_player_id()->Some_0;
        lemma_despawn_keeps_others(w, player, id);
        assert(w.player_hit(event, pick).objects == w.despawned(player).objects);
    }
}

/// The fourth rule's answer to one report raises no flag.
pub proof fn lemma_reached_flag_raises_none(w: WorldView, event: CollisionEvent, id: Entity)
    requires
        w.wf(),
    ensures
        w.flag_taken(event).wf(),
        w.flag_taken(event).kind_of(id) matches Some(Kind::Flag(_)) ==> w.kind_of(id) matches Some(
            Kind::Flag(_),
        ),
{
    match w.reached_flag(event) {
        Some(flag) => {
            lemma_despawn_keeps_others(w, flag, id);
            assert(w.flag_taken(event).objects == w.despawned(flag).objects);
        },
        None => {},
    }
}

/// The second rule raises no flag: after it answered the reports of a
/// tick, an object is a flag only if it was one before.
pub proof fn lemma_blasts_raise_no_flag(
    w: WorldView,
    events: Seq<CollisionEvent>,
    rolls: Seq<Option<u32>>,
    id: Entity,
)
    requires
        w.wf(),
        w.has_room(events.len() as int),
    ensures
        w.blasts(events, rolls).kind_of(id) matches Some(Kind::Flag(_)) ==> w.kind_of(id)
            matches Some(Kind::Flag(_)),
    decreases events.len(),
{
    if events.len() > 0 {
        lemma_blasts_raise_no_flag(w, events.drop_last(), rolls.drop_last(), id);
        lemma_destroyed_at_most_once(w, events.drop_last(), rolls.drop_last(), id);
        lemma_blast_removes_for_good(
            w.blasts(events.drop_last(), rolls.drop_last()),
            events.last(),
            rolls.last(),
            id,
        );
    }
}

/// What the rules leave alone and what they may do to the screen: none
/// of them does anything outside of play or changes the level; the first
/// and the second leave the screen alone, the third can only end the game
/// and the fourth can only clear the level.
pub proof fn lemma_rules_keep_to_the_screens(
    w: WorldView,
    events: Seq<CollisionEvent>,
    rolls: Seq<Option<u32>>,
)
    ensures
        !w.is_playing() ==> w.items_picked(events) == w && w.blasts(events, rolls) == w
            && w.player_hits(events, rolls) == w && w.flags_taken(events) == w,
        w.items_picked(events).state == w.state,
        w.items_picked(events).level == w.level,
        w.items_picked(events).next_entity == w.next_entity,
        w.blasts(events, rolls).state == w.state,
        w.blasts(events, rolls).level == w.level,
        w.player_hits(events, rolls).state == w.state || (w.is_playing() && w.player_hits(
            events,
            rolls,
        ).state == GameState::GameOver),
        w.player_hits(events, rolls).level == w.level,
        w.player_hits(events, rolls).next_entity == w.next_entity,
        w.flags_taken(events).state == w.state || (w.is_playing() && w.flags_taken(events).state
            == GameState::NextLevel),
        w.flags_taken(events).level == w.level,
        w.flags_taken(events).next_entity == w.next_entity,
    decreases events.len(),
{
    if events.len() > 0 {
        lemma_rules_keep_to_the_screens(w, events.drop_last(), rolls.drop_last());
    }
}

/// The four rules as one unit, each answering all reports of the tick
/// before the next rule begins.
#[derive(Clone, Copy, Debug, PartialEq, Eq, Hash, Default)]
pub struct ColliderPlugin;

/// What chance decided while the rules answered the reports of a tick: the
/// drop rolls and the picks of a game-over jingle, each report by report.
#[derive(Clone, Debug, PartialEq, Eq)]
pub struct Rolls {
    pub drops: Vec<Option<u32>>,
    pub jingles: Vec<Option<u32>>,
}

impl WorldView {
    /// The world after the four rules answered `events`, one rule after
    /// the other.
    pub open spec fn collisions_resolved(
        self,
        events: Seq<CollisionEvent>,
        drops: Seq<Option<u32>>,
        jingles: Seq<Option<u32>>,
    ) -> WorldView {
        self.items_picked(events).blasts(events, drops).player_hits(events, jingles).flags_taken(
            events,
        )
    }

    /// Whether `drops` and `jingles` hold what the second and the third
    /// rule roll and pick on `events`.
    pub open spec fn chance_fits(
        self,
        events: Seq<CollisionEvent>,
        drops: Seq<Option<u32>>,
        jingles: Seq<Option<u32>>,
    ) -> bool {
        &&& self.items_picked(events).rolls_fit(events, drops)
        &&& self.items_picked(events).blasts(events, drops).picks_fit(events, jingles)
    }
}

impl ColliderPlugin {
    /// Answers the reports of a tick by the four rules in their order and
    /// returns what chance decided.
    pub fn update(&self, world: &mut World, collision_events: &Vec<CollisionEvent>) -> (rolls: Rolls)
        requires
            old(world).wf(),
            old(world)@.has_room(collision_events@.len() as int),
        ensures
            final(world).wf(),
            old(world)@.chance_fits(collision_events@, rolls.drops@, rolls.jingles@),
            final(world)@ == old(world)@.collisions_resolved(
                collision_events@,
                rolls.drops@,
                rolls.jingles@,
            ),
            final(world)@.next_entity <= old(world)@.next_entity + collision_events@.len(),
    {
        player_and_item_collision_listener(world, collision_events);
        let drops = explosion_collision_listener(world, collision_events);
        let jingles = player_and_bomb_collision_listener(world, collision_events);
        player_and_flag_collision_listener(world, collision_events);
        Rolls { drops, jingles }
    }
}

/// The object that met the player in the pair `a`, `b`, if exactly one
/// player exists and is one of the two.
pub fn partner_of_player(world: &World, a: Entity, b: Entity) -> (other: Option<Entity>)
    ensures
        other == world@.player_partner(a, b),
{
    match world.player() {
        Some((player, _)) => if a == player {
            Some(b)
        } else if b == player {
            Some(a)
        } else {
            None
        },
        None => None,
    }
}

/// Removes the object `item_entity` and has the host remove it and play
/// `audio_source`. An object that is already gone is left alone, and
/// nothing is played for it.
pub fn item_collision(world: &mut World, item_entity: Entity, audio_source: Sound)
    requires
        old(world).wf(),
    ensures
        final(world).wf(),
        final(world)@ == old(world)@.item_collided(item_entity, audio_source),
{
    if world.despawn(item_entity) {
        world.emit(Command::Despawn(item_entity));
        world.emit(Command::PlaySound(audio_source));
    }
}

/// Answers one report by the first rule.
pub fn collide_player_and_item(world: &mut World, event: CollisionEvent)
    requires
        old(world).wf(),
    ensures
        final(world).wf(),
        final(world)@ == old(world)@.item_picked(event),
        final(world)@.next_entity == old(world)@.next_entity,
{
    if !world.state().is_gameplay() {
        return ;
    }
    match event {
        CollisionEvent::Started(a, b) => {
            match world.player() {
                Some((player_entity, player)) => {
                    let item_entity = if a == player_entity {
                        b
                    } else if b == player_entity {
                        a
                    } else {
                        return ;
                    };
                    match world.kind(item_entity) {
                        Some(Kind::Item(item)) => {
                            item_collision(world, item_entity, Sound::GetItem);
                            let mut player = player;
                            player.apply(item.upgrade);
                            world.replace(player_entity, Kind::Player(player));
                        },
                        _ => {},
                    }
                },
                None => {},
            }
        },
        CollisionEvent::Stopped(_, _) => {},
    }
}

/// Answers the reports of a tick by the first rule: each item the player
/// began to overlap is removed and heard, and the player gets its
/// upgrade.
pub fn player_and_item_collision_listener(world: &mut World, collision_events: &Vec<CollisionEvent>)
    requires
        old(world).wf(),
    ensures
        final(world).wf(),
        final(world)@ == old(world)@.items_picked(collision_events@),
        final(world)@.next_entity == old(world)@.next_entity,
{
    let ghost start = world@;
    let mut i: usize = 0;
    while i < collision_events.len()
        invariant
            i <= collision_events.len(),
            world.wf(),
            world@ == start.items_picked(collision_events@.take(i as int)),
            world@.next_entity == start.next_entity,
        decreases collision_events.len() - i,
    {
        assert(collision_events@.take(i + 1).drop_last() == collision_events@.take(i as int));
        collide_player_and_item(world, collision_events[i]);
        i = i + 1;
    }
    assert(collision_events@.take(i as int) == collision_events@);
}

/// The breakable that `event` destroys, if any.
pub fn hit_breakable(world: &World, event: CollisionEvent) -> (target: Option<Entity>)
    requires
        world.wf(),
    ensures
        target == world@.blast_target(event),
{
    if !world.state().is_gameplay() {
        return None;
    }
    match event {
        CollisionEvent::Started(a, b) => {
            if is_primed(world, a) && is_breakable(world, b) {
                Some(b)
            } else if is_primed(world, b) && is_breakable(world, a) {
                Some(a)
            } else {
                None
            }
        },
        CollisionEvent::Stopped(_, _) => None,
    }
}

/// Whether `id` is a bomb whose hit region is on.
pub fn is_primed(world: &World, id: Entity) -> (primed: bool)
    requires
        world.wf(),
    ensures
        primed == world@.is_primed_bomb(id),
{
    match world.kind(id) {
        Some(Kind::Bomb(bomb)) => bomb.armed_for_collision,
        _ => false,
    }
}

/// Whether `id` is a breakable.
pub fn is_breakable(world: &World, id: Entity) -> (breakable: bool)
    requires
        world.wf(),
    ensures
        breakable == (world@.kind_of(id) matches Some(Kind::Breakable(_))),
{
    match world.kind(id) {
        Some(Kind::Breakable(_)) => true,
        _ => false,
    }
}

/// Answers one report by the second rule, given the drop roll to use if
/// the report destroys a breakable.
pub fn collide_explosion(world: &mut World, event: CollisionEvent, roll: Option<u32>)
    requires
        old(world).wf(),
        old(world)@.has_room(1),
    ensures
        final(world).wf(),
        final(world)@ == old(world)@.blasted(event, roll),
        final(world)@.next_entity <= old(world)@.next_entity + 1,
{
    match hit_breakable(world, event) {
        Some(target) => {
            match world.kind(target) {
                Some(Kind::Breakable(breakable)) => {
                    item_collision(world, target, Sound::BombExplosion);
                    match roll {
                        Some(r) => {
                            drop_upgrade(world, breakable.position, breakable.drops, r);
                        },
                        None => {},
                    }
                },
                _ => {},
            }
        },
        None => {},
    }
}

/// Answers the reports of a tick by the second rule: each breakable that
/// began to overlap a primed bomb is removed and heard, a drop is rolled
/// for it, and what its table gives for the roll is left behind. Returns
/// the rolls made, report by report.
pub fn explosion_collision_listener(world: &mut World, collision_events: &Vec<CollisionEvent>) -> (rolls:
    Vec<Option<u32>>)
    requires
        old(world).wf(),
        old(world)@.has_room(collision_events@.len() as int),
    ensures
        final(world).wf(),
        old(world)@.rolls_fit(collision_events@, rolls@),
        final(world)@ == old(world)@.blasts(collision_events@, rolls@),
        final(world)@.next_entity <= old(world)@.next_entity + collision_events@.len(),
{
    let ghost start = world@;
    let mut rolls: Vec<Option<u32>> = Vec::new();
    let mut i: usize = 0;
    while i < collision_events.len()
        invariant
            i <= collision_events.len(),
            world.wf(),
            start.has_room(collision_events@.len() as int),
            world@.next_entity <= start.next_entity + i,
            rolls@.len() == i,
            start.rolls_fit(collision_events@.take(i as int), rolls@),
            world@ == start.blasts(collision_events@.take(i as int), rolls@),
        decreases collision_events.len() - i,
    {
        let event = collision_events[i];
        let roll = match hit_breakable(world, event) {
            Some(_) => Some(random_below(DROP_ROLL_SIDES)),
            None => None,
        };
        assert(collision_events@.take(i + 1).drop_last() == collision_events@.take(i as int));
        assert(rolls@.push(roll).drop_last() == rolls@);
        collide_explosion(world, event, roll);
        rolls.push(roll);
        i = i + 1;
    }
    assert(collision_events@.take(i as int) == collision_events@);
    rolls
}

/// Whether `event` kills the player.
pub fn hits_player(world: &World, event: CollisionEvent) -> (deadly: bool)
    requires
        world.wf(),
    ensures
        deadly == world@.is_deadly(event),
{
    match event {
        CollisionEvent::Started(a, b) => match partner_of_player(world, a, b) {
            Some(other) => world.state().is_gameplay() && is_primed(world, other),
            None => false,
        },
        CollisionEvent::Stopped(_, _) => false,
    }
}

/// Answers one report by the third rule, given the jingle to play if the
/// report kills the player.
pub fn collide_player_and_bomb(world: &mut World, event: CollisionEvent, pick: Option<u32>)
    requires
        old(world).wf(),
    ensures
        final(world).wf(),
        final(world)@ == old(world)@.player_hit(event, pick),
        final(world)@.next_entity == old(world)@.next_entity,
{
    if hits_player(world, event) {
        match world.player() {
            Some((player_entity, _)) => {
                let jingle = game_over_sound(
                    match pick {
                        Some(p) => p,
                        None => 0,
                    },
                );
                item_collision(world, player_entity, jingle);
                world.set_state(GameState::GameOver);
            },
            None => {},
        }
    }
}

/// Answers the reports of a tick by the third rule: a player who began to
/// overlap a primed bomb is removed, one of the game-over jingles is
/// picked and played, and the game is over. Returns the picks made, report
/// by report.
pub fn player_and_bomb_collision_listener(world: &mut World, collision_events: &Vec<CollisionEvent>) -> (picks:
    Vec<Option<u32>>)
    requires
        old(world).wf(),
    ensures
        final(world).wf(),
        old(world)@.picks_fit(collision_events@, picks@),
        final(world)@ == old(world)@.player_hits(collision_events@, picks@),
        final(world)@.next_entity == old(world)@.next_entity,
{
    let ghost start = world@;
    let mut picks: Vec<Option<u32>> = Vec::new();
    let mut i: usize = 0;
    while i < collision_events.len()
        invariant
            i <= collision_events.len(),
            world.wf(),
            picks@.len() == i,
            start.picks_fit(collision_events@.take(i as int), picks@),
            world@ == start.player_hits(collision_events@.take(i as int), picks@),
            world@.next_entity == start.next_entity,
        decreases collision_events.len() - i,
    {
        let event = collision_events[i];
        let pick = if hits_player(world, event) {
            Some(random_below(GAME_OVER_SOUNDS))
        } else {
            None
        };
        assert(collision_events@.take(i + 1).drop_last() == collision_events@.take(i as int));
        assert(picks@.push(pick).drop_last() == picks@);
        collide_player_and_bomb(world, event, pick);
        picks.push(pick);
        i = i + 1;
    }
    assert(collision_events@.take(i as int) == collision_events@);
    picks
}

/// Answers one report by the fourth rule.
pub fn collide_player_and_flag(world: &mut World, event: CollisionEvent)
    requires
        old(world).wf(),
    ensures
        final(world).wf(),
        final(world)@ == old(world)@.flag_taken(event),
        final(world)@.next_entity == old(world)@.next_entity,
{
    if !world.state().is_gameplay() {
        return ;
    }
    match event {
        CollisionEvent::Started(a, b) => {
            match partner_of_player(world, a, b) {
                Some(other) => {
                    match world.kind(other) {
                        Some(Kind::Flag(_)) => {
                            item_collision(world, other, Sound::WonLevel);
                            world.set_state(GameState::NextLevel);
                        },
                        _ => {},
                    }
                },
                None => {},
            }
        },
        CollisionEvent::Stopped(_, _) => {},
    }
}

/// Answers the reports of a tick by the fourth rule: a flag the player
/// began to overlap is removed, the win is heard and the level is cleared.
pub fn player_and_flag_collision_listener(world: &mut World, collision_events: &Vec<CollisionEvent>)
    requires
        old(world).wf(),
    ensures
        final(world).wf(),
        final(world)@ == old(world)@.flags_taken(collision_events@),
        final(world)@.next_entity == old(world)@.next_entity,
{
    let ghost start = world@;
    let mut i: usize = 0;
    while i < collision_events.len()
        invariant
            i <= collision_events.len(),
            world.wf(),
            world@ == start.flags_taken(collision_events@.take(i as int)),
            world@.next_entity == start.next_entity,
        decreases collision_events.len() - i,
    {
        assert(collision_events@.take(i + 1).drop_last() == collision_events@.take(i as int));
        collide_player_and_flag(world, collision_events[i]);
        i = i + 1;
    }
    assert(collision_events@.take(i as int) == collision_events@);
}

} // verus!
