//! Fixed quantities of the game rules.

use vstd::prelude::*;

verus! {

/// Thousandths in one world unit.
pub const UNIT: u32 = 1000;

/// Nanoseconds in one millisecond.
pub const NANOS_PER_MILLI: u64 = 1_000_000;

/// Nanoseconds in one second.
pub const NANOS_PER_SEC: u64 = 1_000_000_000;

/// Milliseconds a player has to wait between two bombs.
pub const BOMB_SPAWN_DELAY: u64 = 350;

/// Seconds a bomb burns before it explodes.
pub const BOMB_EXPLOSION_TIME: u64 = 3;

/// A fuse is primed while at most one part in this many is left of it.
pub const PRIMED_DIVISOR: u64 = 100;

/// Half of the thickness of each bar of an explosion, in thousandths.
pub const BLAST_HALF_THICKNESS: u32 = 50;

/// Range a `Fire` upgrade adds to the player's bombs, in thousandths.
pub const FIRE_RANGE_STEP: u32 = 1000;

/// Speed a `Speed` upgrade adds to the player, in thousandths.
pub const SPEED_STEP: u32 = 200;

/// Exclusive upper bound of a drop roll.
pub const DROP_ROLL_SIDES: u32 = 100;

/// Number of game-over jingles to pick from.
pub const GAME_OVER_SOUNDS: u32 = 3;

/// Name of the channel that carries sound effects.
pub const SFX_AUDIO_CHANNEL: &'static str = "sfx";

/// Volume of a sound effect, in thousandths of full volume.
pub const SFX_VOLUME: u32 = 150;

/// Volume of the background music, in thousandths of full volume.
pub const MUSIC_VOLUME: u32 = 100;

/// Height of the window in pixels.
pub const HEIGHT: u32 = 720;

/// Width of the window in pixels.
pub const WIDTH: u32 = 1280;

} // verus!
