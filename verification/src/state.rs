//! The screens of the game and the levels it cycles through.

use vstd::prelude::*;

verus! {

/// Which screen the game is on. The simulation only runs during `Gameplay`.
#[derive(Clone, Copy, Debug, PartialEq, Eq, Hash, Structural)]
pub enum GameState {
    Menu,
    Loading,
    Gameplay,
    GameOver,
    NextLevel,
}

/// The level being played.
#[derive(Clone, Copy, Debug, PartialEq, Eq, Hash, Structural)]
pub enum Level {
    Level1,
    Level2,
    Level3,
}

impl GameState {
    /// The edges of the screen graph: the menu starts a game, a game ends
    /// lost or cleared, a lost game restarts, and a cleared level leads to
    /// the next one or, after the last, back to the menu.
    pub open spec fn leads_to(self, next: GameState) -> bool {
        match (self, next) {
            (GameState::Menu, GameState::Gameplay) => true,
            (GameState::Gameplay, GameState::GameOver) => true,
            (GameState::Gameplay, GameState::NextLevel) => true,
            (GameState::GameOver, GameState::Gameplay) => true,
            (GameState::NextLevel, GameState::Gameplay) => true,
            (GameState::NextLevel, GameState::Menu) => true,
            _ => false,
        }
    }

    /// Either the same screen or one the graph leads to.
    pub open spec fn stays_or_leads_to(self, next: GameState) -> bool {
        self == next || self.leads_to(next)
    }

    /// Whether the simulation runs on this screen.
    pub fn is_gameplay(&self) -> (playing: bool)
        ensures
            playing == (*self == GameState::Gameplay),
    {
        match self {
            GameState::Gameplay => true,
            _ => false,
        }
    }
}

impl Default for GameState {
    /// The game starts on the menu.
    fn default() -> (state: GameState)
        ensures
            state == GameState::Menu,
    {
        GameState::Menu
    }
}

impl Level {
    /// The level after this one; the last level wraps to the first.
    pub open spec fn successor(self) -> Level {
        match self {
            Level::Level1 => Level::Level2,
            Level::Level2 => Level::Level3,
            Level::Level3 => Level::Level1,
        }
    }

    /// Whether no level follows this one.
    pub open spec fn is_last(self) -> bool {
        self == Level::Level3
    }

    /// The level after this one; the last level wraps to the first.
    pub fn next(&self) -> (level: Level)
        ensures
            level == self.successor(),
    {
        match self {
            Level::Level1 => Level::Level2,
            Level::Level2 => Level::Level3,
            Level::Level3 => Level::Level1,
        }
    }

    /// The level's number, counted from one.
    pub fn number(&self) -> (n: u8)
        ensures
            n == match *self {
                Level::Level1 => 1u8,
                Level::Level2 => 2u8,
                Level::Level3 => 3u8,
            },
    {
        match self {
            Level::Level1 => 1,
            Level::Level2 => 2,
            Level::Level3 => 3,
        }
    }
}

impl Default for Level {
    /// The game starts on the first level.
    fn default() -> (level: Level)
        ensures
            level == Level::Level1,
    {
        Level::Level1
    }
}

/// Where clearing a level leads: the state and level after the player has
/// confirmed the level-cleared screen. After the last level the game goes
/// back to the menu and to the first level; otherwise play goes on in the
/// next level.
pub open spec fn level_advance(level: Level) -> (GameState, Level) {
    if level.is_last() {
        (GameState::Menu, Level::Level1)
    } else {
        (GameState::Gameplay, level.successor())
    }
}

/// Computes [`level_advance`].
pub fn advance_level(level: Level) -> (next: (GameState, Level))
    ensures
        next == level_advance(level),
        GameState::NextLevel.leads_to(next.0),
{
    match level {
        Level::Level1 => (GameState::Gameplay, Level::Level2),
        Level::Level2 => (GameState::Gameplay, Level::Level3),
        Level::Level3 => (GameState::Menu, Level::Level1),
    }
}

} // verus!
