//! The sounds the simulation asks the host to play.

use vstd::prelude::*;
use crate::constants::{MUSIC_VOLUME, SFX_VOLUME};
use crate::state::Level;

verus! {

/// The two channels a sound can go out on.
#[derive(Clone, Copy, Debug, PartialEq, Eq, Hash, Structural)]
pub enum Channel {
    Background,
    Sfx,
}

/// Every sound of the game.
#[derive(Clone, Copy, Debug, PartialEq, Eq, Hash, Structural)]
pub enum Sound {
    BombStart,
    BombExplosion,
    GetItem,
    WonLevel,
    MenuClick,
    GameOver1,
    GameOver2,
    GameOver3,
    MusicLevel1,
    MusicLevel2,
    MusicLevel3,
    MusicMenu,
}

impl Sound {
    /// Music goes out on the background channel, everything else is an
    /// effect.
    pub open spec fn channel_of(self) -> Channel {
        match self {
            Sound::MusicLevel1 | Sound::MusicLevel2 | Sound::MusicLevel3 | Sound::MusicMenu
                => Channel::Background,
            _ => Channel::Sfx,
        }
    }

    /// The channel this sound goes out on.
    pub fn channel(&self) -> (channel: Channel)
        ensures
            channel == self.channel_of(),
    {
        match self {
            Sound::MusicLevel1 | Sound::MusicLevel2 | Sound::MusicLevel3 | Sound::MusicMenu
                => Channel::Background,
            _ => Channel::Sfx,
        }
    }

    /// The volume to play this sound at, in thousandths of full volume.
    pub fn volume(&self) -> (volume: u32)
        ensures
            volume == (if self.channel_of() == Channel::Sfx { SFX_VOLUME } else { MUSIC_VOLUME }),
    {
        match self.channel() {
            Channel::Sfx => SFX_VOLUME,
            Channel::Background => MUSIC_VOLUME,
        }
    }

    /// Where the sound's file lies below the asset directory.
    pub fn path(&self) -> (path: &'static str)
        ensures
            path@ == match *self {
                Sound::BombStart => "audios/sfx/bomb_start.ogg"@,
                Sound::BombExplosion => "audios/sfx/bomb_explosion.ogg"@,
                Sound::GetItem => "audios/sfx/get_item.ogg"@,
                Sound::WonLevel => "audios/sfx/won_level_1.ogg"@,
                Sound::MenuClick => "audios/sfx/menu_click.ogg"@,
                Sound::GameOver1 => "audios/sfx/game_over_1.ogg"@,
                Sound::GameOver2 => "audios/sfx/game_over_2.ogg"@,
                Sound::GameOver3 => "audios/sfx/game_over_3.ogg"@,
                Sound::MusicLevel1 => "audios/background/level_1.ogg"@,
                Sound::MusicLevel2 => "audios/background/level_2.ogg"@,
                Sound::MusicLevel3 => "audios/background/level_3.ogg"@,
                Sound::MusicMenu => "audios/background/menu.ogg"@,
            },
    {
        match self {
            Sound::BombStart => "audios/sfx/bomb_start.ogg",
            Sound::BombExplosion => "audios/sfx/bomb_explosion.ogg",
            Sound::GetItem => "audios/sfx/get_item.ogg",
            Sound::WonLevel => "audios/sfx/won_level_1.ogg",
            Sound::MenuClick => "audios/sfx/menu_click.ogg",
            Sound::GameOver1 => "audios/sfx/game_over_1.ogg",
            Sound::GameOver2 => "audios/sfx/game_over_2.ogg",
            Sound::GameOver3 => "audios/sfx/game_over_3.ogg",
            Sound::MusicLevel1 => "audios/background/level_1.ogg",
            Sound::MusicLevel2 => "audios/background/level_2.ogg",
            Sound::MusicLevel3 => "audios/background/level_3.ogg",
            Sound::MusicMenu => "audios/background/menu.ogg",
        }
    }
}

/// The music of a level.
pub open spec fn level_music(level: Level) -> Sound {
    match level {
        Level::Level1 => Sound::MusicLevel1,
        Level::Level2 => Sound::MusicLevel2,
        Level::Level3 => Sound::MusicLevel3,
    }
}

/// The jingle played when the game is lost in a level.
pub open spec fn level_game_over(level: Level) -> Sound {
    match level {
        Level::Level1 => Sound::GameOver1,
        Level::Level2 => Sound::GameOver2,
        Level::Level3 => Sound::GameOver3,
    }
}

/// The jingle with the given number, counted from zero; numbers past the
/// last jingle give the last one.
pub open spec fn game_over_pick(pick: u32) -> Sound {
    if pick == 0 {
        Sound::GameOver1
    } else if pick == 1 {
        Sound::GameOver2
    } else {
        Sound::GameOver3
    }
}

/// The music to start when play begins in `level`.
pub fn start_bg_music(level: Level) -> (sound: Sound)
    ensures
        sound == level_music(level),
        sound.channel_of() == Channel::Background,
{
    match level {
        Level::Level1 => Sound::MusicLevel1,
        Level::Level2 => Sound::MusicLevel2,
        Level::Level3 => Sound::MusicLevel3,
    }
}

/// The jingle to play on the game-over screen of `level`.
pub fn play_game_over(level: Level) -> (sound: Sound)
    ensures
        sound == level_game_over(level),
        sound.channel_of() == Channel::Sfx,
{
    match level {
        Level::Level1 => Sound::GameOver1,
        Level::Level2 => Sound::GameOver2,
        Level::Level3 => Sound::GameOver3,
    }
}

/// The music of the menu.
pub fn start_menu_music() -> (sound: Sound)
    ensures
        sound == Sound::MusicMenu,
{
    Sound::MusicMenu
}

/// The game-over jingle for a pick among the jingles.
pub fn game_over_sound(pick: u32) -> (sound: Sound)
    ensures
        sound == game_over_pick(pick),
        sound.channel_of() == Channel::Sfx,
{
    if pick == 0 {
        Sound::GameOver1
    } else if pick == 1 {
        Sound::GameOver2
    } else {
        Sound::GameOver3
    }
}

} // verus!
