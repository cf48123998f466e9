//! The player's stats and what changes them.

use vstd::prelude::*;
use crate::bomb::Bomb;
use crate::collider::UpgradeType;
use crate::constants::{
    BOMB_EXPLOSION_TIME, BOMB_SPAWN_DELAY, FIRE_RANGE_STEP, NANOS_PER_MILLI, NANOS_PER_SEC,
    SPEED_STEP, UNIT,
};
use crate::timer::Timer;
use crate::utils::{describe_player, player_prefab};
use crate::world::{Entity, World};

verus! {

/// The player. `speed` and `bomb_range` are in thousandths of a world unit.
#[derive(Clone, Copy, Debug, PartialEq, Eq, Structural)]
pub struct Player {
    pub speed: u32,
    pub bomb_amount: u32,
    pub bomb_range: u32,
    pub bomb_delay: Timer,
}

/// The cooldown a player starts with and gets back after each bomb.
pub open spec fn fresh_bomb_delay() -> Timer {
    Timer { duration: (BOMB_SPAWN_DELAY * NANOS_PER_MILLI) as u64, elapsed: 0 }
}

/// The fuse of a bomb that was just placed.
pub open spec fn fresh_fuse() -> Timer {
    Timer { duration: (BOMB_EXPLOSION_TIME * NANOS_PER_SEC) as u64, elapsed: 0 }
}

/// `value + step`, or the largest `u32` where the sum does not fit.
pub open spec fn capped_sum(value: u32, step: u32) -> u32 {
    if value + step <= u32::MAX {
        (value + step) as u32
    } else {
        u32::MAX
    }
}

impl Player {
    /// The player after picking up one upgrade of `kind`: a `Bomb` is one
    /// more bomb, a `Fire` one unit of range, a `Speed` a fifth of a unit
    /// of speed, and `Nothing` changes nothing. A stat that has reached the
    /// largest `u32` stays there.
    pub open spec fn upgraded(self, kind: UpgradeType) -> Player {
        match kind {
            UpgradeType::Bomb => Player { bomb_amount: capped_sum(self.bomb_amount, 1), ..self },
            UpgradeType::Fire => Player {
                bomb_range: capped_sum(self.bomb_range, FIRE_RANGE_STEP),
                ..self
            },
            UpgradeType::Speed => Player { speed: capped_sum(self.speed, SPEED_STEP), ..self },
            UpgradeType::Nothing => self,
        }
    }

    /// The player after `count` upgrades of `kind`.
    pub open spec fn upgraded_times(self, kind: UpgradeType, count: nat) -> Player
        decreases count,
    {
        if count == 0 {
            self
        } else {
            self.upgraded_times(kind, (count - 1) as nat).upgraded(kind)
        }
    }

    /// Whether the player may place a bomb now: at least one bomb is left
    /// and the cooldown has run out.
    pub open spec fn can_place_bomb(self) -> bool {
        self.bomb_amount > 0 && self.bomb_delay.is_finished()
    }

    /// The player after placing a bomb: one bomb fewer, cooldown restarted.
    pub open spec fn after_placing(self) -> Player {
        Player {
            bomb_amount: (self.bomb_amount - 1) as u32,
            bomb_delay: fresh_bomb_delay(),
            ..self
        }
    }

    /// The bomb this player would place: a fresh fuse and the player's
    /// range, not yet armed.
    pub open spec fn placed_bomb(self) -> Bomb {
        Bomb {
            explode_timer: fresh_fuse(),
            explosion_range: self.bomb_range,
            armed_for_collision: false,
        }
    }

    /// The player after `dt` nanoseconds of waiting for the cooldown.
    pub open spec fn waited(self, dt: int) -> Player {
        Player { bomb_delay: self.bomb_delay.ticked(dt), ..self }
    }

    /// Whether the player lays a bomb in a tick of `dt` nanoseconds in
    /// which the key is or is not pressed.
    pub open spec fn lays_bomb(self, pressed: bool, dt: int) -> bool {
        pressed && self.waited(dt).can_place_bomb()
    }

    /// The player after a tick of `dt` nanoseconds in which the key is or
    /// is not pressed.
    pub open spec fn attempted(self, pressed: bool, dt: int) -> Player {
        if self.lays_bomb(pressed, dt) {
            self.waited(dt).after_placing()
        } else {
            self.waited(dt)
        }
    }

    /// The player after the ticks `attempts`, each given as whether the
    /// key is pressed and how many nanoseconds have passed since the tick
    /// before.
    pub open spec fn attempted_through(self, attempts: Seq<(bool, int)>) -> Player
        decreases attempts.len(),
    {
        if attempts.len() == 0 {
            self
        } else {
            self.attempted(attempts.first().0, attempts.first().1).attempted_through(
                attempts.drop_first(),
            )
        }
    }

    /// How many bombs the player lays over the ticks `attempts`, each
    /// given as whether the key is pressed and how many nanoseconds have
    /// passed since the tick before.
    pub open spec fn bombs_laid(self, attempts: Seq<(bool, int)>) -> nat
        decreases attempts.len(),
    {
        if attempts.len() == 0 {
            0
        } else {
            let (pressed, dt) = attempts.first();
            let rest = self.attempted(pressed, dt).bombs_laid(attempts.drop_first());
            if self.lays_bomb(pressed, dt) {
                rest + 1
            } else {
                rest
            }
        }
    }

    /// A player at the start of a level: one unit of speed, one unit of
    /// range, `bomb_amount` bombs and a cooldown that has yet to run out.
    pub fn new(bomb_amount: u32) -> (player: Player)
        ensures
            player.speed == UNIT,
            player.bomb_range == UNIT,
            player.bomb_amount == bomb_amount,
            player.bomb_delay == fresh_bomb_delay(),
    {
        Player {
            speed: UNIT,
            bomb_amount,
            bomb_range: UNIT,
            bomb_delay: Timer::from_millis(BOMB_SPAWN_DELAY),
        }
    }

    /// Applies one picked-up upgrade.
    pub fn apply(&mut self, kind: UpgradeType)
        ensures
            *final(self) == old(self).upgraded(kind),
    {
        match kind {
            UpgradeType::Bomb => {
                self.bomb_amount = self.bomb_amount.saturating_add(1);
            },
            UpgradeType::Fire => {
                self.bomb_range = self.bomb_range.saturating_add(FIRE_RANGE_STEP);
            },
            UpgradeType::Speed => {
                self.speed = self.speed.saturating_add(SPEED_STEP);
            },
            UpgradeType::Nothing => {},
        }
    }

    /// Places a bomb if the player may: the bomb comes back, the player
    /// has one bomb fewer and the cooldown starts anew. Otherwise nothing
    /// changes.
    pub fn place_bomb(&mut self) -> (placed: Option<Bomb>)
        ensures
            placed.is_some() <==> old(self).can_place_bomb(),
            placed.is_some() ==> placed == Some(old(self).placed_bomb())
                && *final(self) == old(self).after_placing(),
            placed.is_none() ==> *final(self) == *old(self),
    {
        if self.bomb_amount > 0 && self.bomb_delay.finished() {
            let bomb = Bomb::new(self.bomb_range);
            self.bomb_amount = self.bomb_amount - 1;
            self.bomb_delay = Timer::from_millis(BOMB_SPAWN_DELAY);
            Some(bomb)
        } else {
            None
        }
    }
}

/// The nanoseconds that pass over the ticks `attempts`; a negative step
/// counts as zero.
pub open spec fn time_spent(attempts: Seq<(bool, int)>) -> int
    decreases attempts.len(),
{
    if attempts.len() == 0 {
        0
    } else {
        (if attempts.first().1 > 0 {
            attempts.first().1
        } else {
            0
        }) + time_spent(attempts.drop_first())
    }
}

/// While the cooldown has more time left than passes, no bomb is laid.
pub proof fn lemma_no_bomb_during_cooldown(player: Player, attempts: Seq<(bool, int)>)
    requires
        time_spent(attempts) < player.bomb_delay.time_left(),
    ensures
        player.bombs_laid(attempts) == 0,
    decreases attempts.len(),
{
    if attempts.len() > 0 {
        let (pressed, dt) = attempts.first();
        assert(time_spent(attempts.drop_first()) >= 0) by {
            lemma_time_spent_nonnegative(attempts.drop_first());
        }
        lemma_no_bomb_during_cooldown(player.attempted(pressed, dt), attempts.drop_first());
    }
}

/// Time spent is never negative.
pub proof fn lemma_time_spent_nonnegative(attempts: Seq<(bool, int)>)
    ensures
        time_spent(attempts) >= 0,
    decreases attempts.len(),
{
    if attempts.len() > 0 {
        lemma_time_spent_nonnegative(attempts.drop_first());
    }
}

/// Over consecutive ticks that all fall within one cooldown, at most one
/// bomb is laid: if less than the cooldown passes between the first tick
/// and the last, the player lays no second bomb, however often the key is
/// pressed.
pub proof fn lemma_one_bomb_per_cooldown(player: Player, attempts: Seq<(bool, int)>)
    requires
        attempts.len() > 0 ==> time_spent(attempts.drop_first()) < BOMB_SPAWN_DELAY
            * NANOS_PER_MILLI,
    ensures
        player.bombs_laid(attempts) <= 1,
    decreases attempts.len(),
{
    if attempts.len() > 0 {
        let (pressed, dt) = attempts.first();
        let rest = attempts.drop_first();
        let next = player.attempted(pressed, dt);
        if player.lays_bomb(pressed, dt) {
            assert(next.bomb_delay == fresh_bomb_delay());
            lemma_no_bomb_during_cooldown(next, rest);
        } else {
            if rest.len() > 0 {
                lemma_time_spent_nonnegative(rest.drop_first());
            }
            lemma_one_bomb_per_cooldown(next, rest);
        }
    }
}

/// Each bomb laid costs the player one bomb and nothing else: over any
/// run of ticks the player ends with as many bombs fewer as were laid, and
/// with the same range and speed.
pub proof fn lemma_bombs_laid_are_paid(player: Player, attempts: Seq<(bool, int)>)
    ensures
        player.bombs_laid(attempts) <= player.bomb_amount,
        player.bombs_laid(attempts) <= attempts.len(),
        player.attempted_through(attempts).bomb_amount == player.bomb_amount - player.bombs_laid(
            attempts,
        ),
        player.attempted_through(attempts).bomb_range == player.bomb_range,
        player.attempted_through(attempts).speed == player.speed,
    decreases attempts.len(),
{
    if attempts.len() > 0 {
        let (pressed, dt) = attempts.first();
        lemma_bombs_laid_are_paid(player.attempted(pressed, dt), attempts.drop_first());
    }
}

/// What upgrades add up to while no stat reaches the largest `u32`:
/// `count` pickups of `Fire` add `count` units of range, of `Bomb` `count`
/// bombs, of `Speed` `count` fifths of a unit of speed, and each leaves
/// the other stats and the cooldown alone.
pub proof fn lemma_upgrades_add_up(player: Player, kind: UpgradeType, count: nat)
    ensures
        ({
            let after = player.upgraded_times(kind, count);
            &&& after.bomb_delay == player.bomb_delay
            &&& match kind {
                UpgradeType::Fire => {
                    &&& after.bomb_amount == player.bomb_amount
                    &&& after.speed == player.speed
                    &&& player.bomb_range + count * FIRE_RANGE_STEP <= u32::MAX
                        ==> after.bomb_range == player.bomb_range + count * FIRE_RANGE_STEP
                },
                UpgradeType::Bomb => {
                    &&& after.bomb_range == player.bomb_range
                    &&& after.speed == player.speed
                    &&& player.bomb_amount + count <= u32::MAX ==> after.bomb_amount
                        == player.bomb_amount + count
                },
                UpgradeType::Speed => {
                    &&& after.bomb_range == player.bomb_range
                    &&& after.bomb_amount == player.bomb_amount
                    &&& player.speed + count * SPEED_STEP <= u32::MAX ==> after.speed
                        == player.speed + count * SPEED_STEP
                },
                UpgradeType::Nothing => after == player,
            }
        }),
    decreases count,
{
    if count > 0 {
        lemma_upgrades_add_up(player, kind, (count - 1) as nat);
        assert(count * FIRE_RANGE_STEP == (count - 1) * FIRE_RANGE_STEP + FIRE_RANGE_STEP)
            by (nonlinear_arith);
        assert(count * SPEED_STEP == (count - 1) * SPEED_STEP + SPEED_STEP) by (nonlinear_arith);
        assert((count - 1) * FIRE_RANGE_STEP >= 0) by (nonlinear_arith)
            requires
                count >= 1,
        ;
        assert((count - 1) * SPEED_STEP >= 0) by (nonlinear_arith)
            requires
                count >= 1,
        ;
    }
}

/// Puts a player with `bomb_amount` bombs at the start of the level and
/// returns the player's handle.
pub fn spawn_player(world: &mut World, bomb_amount: u32) -> (id: Entity)
    requires
        old(world).wf(),
        old(world)@.has_room(1),
    ensures
        final(world).wf(),
        id == old(world)@.next_entity,
        final(world)@ == old(world)@.placed(
            player_prefab(
                Player {
                    speed: UNIT,
                    bomb_amount,
                    bomb_range: UNIT,
                    bomb_delay: fresh_bomb_delay(),
                },
            ),
        ),
{
    world.place(describe_player(Player::new(bomb_amount)))
}

/// The sign of the player's movement along each axis for the keys held:
/// `right` and `left` move along x, `backward` and `forward` along z, and
/// two opposite keys cancel.
pub open spec fn movement_signs(forward: bool, backward: bool, left: bool, right: bool) -> (int, int) {
    (
        (if right { 1int } else { 0int }) - (if left { 1int } else { 0int }),
        (if backward { 1int } else { 0int }) - (if forward { 1int } else { 0int }),
    )
}

/// Computes [`movement_signs`]; the host scales them by speed and frame
/// time.
pub fn player_movement(forward: bool, backward: bool, left: bool, right: bool) -> (signs: (i8, i8))
    ensures
        (signs.0 as int, signs.1 as int) == movement_signs(forward, backward, left, right),
{
    let mut z: i8 = 0;
    if forward {
        z = z - 1;
    }
    if backward {
        z = z + 1;
    }
    let mut x: i8 = 0;
    if left {
        x = x - 1;
    }
    if right {
        x = x + 1;
    }
    (x, z)
}

} // verus!
