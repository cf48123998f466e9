use bomberbevy::audio::{
    game_over_sound, play_game_over, start_bg_music, start_menu_music, Channel, Sound,
};
use bomberbevy::constants::{GAME_OVER_SOUNDS, HEIGHT, SFX_AUDIO_CHANNEL, WIDTH};
use bomberbevy::gameover;
use bomberbevy::menu;
use bomberbevy::nextlevel::enter_pressed;
use bomberbevy::state::{advance_level, GameState, Level};
use bomberbevy::utils::{Model, Name};
use bomberbevy::world::{Command, World};

const ALL_STATES: [GameState; 5] = [
    GameState::Menu,
    GameState::Loading,
    GameState::Gameplay,
    GameState::GameOver,
    GameState::NextLevel,
];

#[test]
fn game_starts_on_the_menu_of_the_first_level() {
    let world = World::new();
    assert_eq!(world.state(), GameState::Menu);
    assert_eq!(world.level(), Level::Level1);
    assert_eq!(GameState::default(), GameState::Menu);
    assert_eq!(Level::default(), Level::Level1);
    assert!(!GameState::Menu.is_gameplay());
    assert!(GameState::Gameplay.is_gameplay());
}

#[test]
fn levels_follow_each_other_and_wrap() {
    assert_eq!(Level::Level1.next(), Level::Level2);
    assert_eq!(Level::Level2.next(), Level::Level3);
    assert_eq!(Level::Level3.next(), Level::Level1);
    assert_eq!(Level::Level1.number(), 1);
    assert_eq!(Level::Level2.number(), 2);
    assert_eq!(Level::Level3.number(), 3);
}

#[test]
fn cleared_level_leads_on_or_back_to_the_menu() {
    assert_eq!(advance_level(Level::Level1), (GameState::Gameplay, Level::Level2));
    assert_eq!(advance_level(Level::Level2), (GameState::Gameplay, Level::Level3));
    assert_eq!(advance_level(Level::Level3), (GameState::Menu, Level::Level1));
}

#[test]
fn key_on_the_menu_starts_the_game() {
    let mut world = World::new();
    assert!(!menu::any_button_pressed(&mut world, false));
    assert_eq!(world.state(), GameState::Menu);
    assert!(menu::any_button_pressed(&mut world, true));
    assert_eq!(world.state(), GameState::Gameplay);
    assert_eq!(world.drain_commands(), vec![Command::PlaySound(Sound::MenuClick)]);
    assert!(!menu::any_button_pressed(&mut world, true));
    assert_eq!(world.drain_commands(), vec![]);
}

#[test]
fn menu_answers_only_on_the_menu() {
    for state in ALL_STATES {
        let mut world = World::new();
        world.set_state(state);
        let left = menu::any_button_pressed(&mut world, true);
        assert_eq!(left, state == GameState::Menu);
        if !left {
            assert_eq!(world.state(), state);
            assert_eq!(world.drain_commands(), vec![]);
        }
    }
}

#[test]
fn key_on_the_game_over_screen_starts_anew() {
    let mut world = World::new();
    world.set_state(GameState::GameOver);
    assert!(!gameover::any_button_pressed(&mut world, false));
    assert!(gameover::any_button_pressed(&mut world, true));
    assert_eq!(world.state(), GameState::Gameplay);
    assert_eq!(world.drain_commands(), vec![]);
    for state in ALL_STATES {
        world.set_state(state);
        assert_eq!(gameover::any_button_pressed(&mut world, true), state == GameState::GameOver);
    }
}

#[test]
fn enter_on_the_cleared_screen_goes_through_the_levels() {
    let mut world = World::new();
    world.set_state(GameState::NextLevel);
    assert!(!enter_pressed(&mut world, false));
    assert_eq!((world.state(), world.level()), (GameState::NextLevel, Level::Level1));
    assert!(enter_pressed(&mut world, true));
    assert_eq!((world.state(), world.level()), (GameState::Gameplay, Level::Level2));
    assert_eq!(world.drain_commands(), vec![Command::PlaySound(Sound::MenuClick)]);
    assert!(!enter_pressed(&mut world, true));
    world.set_state(GameState::NextLevel);
    assert!(enter_pressed(&mut world, true));
    assert_eq!((world.state(), world.level()), (GameState::Gameplay, Level::Level3));
    world.set_state(GameState::NextLevel);
    assert!(enter_pressed(&mut world, true));
    assert_eq!((world.state(), world.level()), (GameState::Menu, Level::Level1));
}

#[test]
fn each_level_has_its_music_and_jingle() {
    assert_eq!(start_bg_music(Level::Level1), Sound::MusicLevel1);
    assert_eq!(start_bg_music(Level::Level2), Sound::MusicLevel2);
    assert_eq!(start_bg_music(Level::Level3), Sound::MusicLevel3);
    assert_eq!(play_game_over(Level::Level1), Sound::GameOver1);
    assert_eq!(play_game_over(Level::Level2), Sound::GameOver2);
    assert_eq!(play_game_over(Level::Level3), Sound::GameOver3);
    assert_eq!(start_menu_music(), Sound::MusicMenu);
}

#[test]
fn jingles_are_picked_by_number() {
    assert_eq!(GAME_OVER_SOUNDS, 3);
    assert_eq!(game_over_sound(0), Sound::GameOver1);
    assert_eq!(game_over_sound(1), Sound::GameOver2);
    assert_eq!(game_over_sound(2), Sound::GameOver3);
    assert_eq!(game_over_sound(3), Sound::GameOver3);
    assert_eq!(game_over_sound(u32::MAX), Sound::GameOver3);
}

#[test]
fn sounds_know_their_channel_volume_and_file() {
    assert_eq!(Sound::BombStart.channel(), Channel::Sfx);
    assert_eq!(Sound::GameOver2.channel(), Channel::Sfx);
    assert_eq!(Sound::MusicLevel2.channel(), Channel::Background);
    assert_eq!(Sound::MusicMenu.channel(), Channel::Background);
    assert_eq!(Sound::GetItem.volume(), 150);
    assert_eq!(Sound::MusicLevel1.volume(), 100);
    assert_eq!(Sound::BombStart.path(), "audios/sfx/bomb_start.ogg");
    assert_eq!(Sound::BombExplosion.path(), "audios/sfx/bomb_explosion.ogg");
    assert_eq!(Sound::GetItem.path(), "audios/sfx/get_item.ogg");
    assert_eq!(Sound::WonLevel.path(), "audios/sfx/won_level_1.ogg");
    assert_eq!(Sound::MenuClick.path(), "audios/sfx/menu_click.ogg");
    assert_eq!(Sound::GameOver1.path(), "audios/sfx/game_over_1.ogg");
    assert_eq!(Sound::GameOver2.path(), "audios/sfx/game_over_2.ogg");
    assert_eq!(Sound::GameOver3.path(), "audios/sfx/game_over_3.ogg");
    assert_eq!(Sound::MusicLevel1.path(), "audios/background/level_1.ogg");
    assert_eq!(Sound::MusicLevel2.path(), "audios/background/level_2.ogg");
    assert_eq!(Sound::MusicLevel3.path(), "audios/background/level_3.ogg");
    assert_eq!(Sound::MusicMenu.path(), "audios/background/menu.ogg");
    assert_eq!(SFX_AUDIO_CHANNEL, "sfx");
    assert_eq!((WIDTH, HEIGHT), (1280, 720));
}

#[test]
fn models_and_names_have_their_text() {
    assert_eq!(Model::Bomb.path(), "objects/bomb.glb#Scene0");
    assert_eq!(Model::BombUp.path(), "objects/bombup.glb#Scene0");
    assert_eq!(Model::FireUp.path(), "objects/fireup.glb#Scene0");
    assert_eq!(Model::Flag.path(), "objects/flag.glb#Scene0");
    assert_eq!(Model::Player.path(), "objects/enemy_ufoRedWeapon.glb#Scene0");
    assert_eq!(Model::SpeedUp.path(), "objects/speedup.glb#Scene0");
    assert_eq!(Model::Tile.path(), "objects/tile.glb#Scene0");
    assert_eq!(Model::TileStraight.path(), "objects/tile_straight.glb#Scene0");
    assert_eq!(Model::TowerSquareMiddleA.path(), "objects/towerSquare_middleA.glb#Scene0");
    assert_eq!(Model::TowerSquareSampleA.path(), "objects/towerSquare_sampleA.glb#Scene0");
    assert_eq!(Model::TowerSquareSampleE.path(), "objects/towerSquare_sampleE.glb#Scene0");
    assert_eq!(Model::Workbench.path(), "objects/workbench.glb#Scene0");
    assert_eq!(Name::Block.text(), "Block");
    assert_eq!(Name::Bomb.text(), "Bomb");
    assert_eq!(Name::BombUp.text(), "BombUp");
    assert_eq!(Name::Coin.text(), "Coin");
    assert_eq!(Name::EndFlag.text(), "EndFlag");
    assert_eq!(Name::FireUp.text(), "FireUp");
    assert_eq!(Name::Floor.text(), "Floor");
    assert_eq!(Name::FloorStraight.text(), "FloorStraight");
    assert_eq!(Name::Player.text(), "Player");
    assert_eq!(Name::RoundedWall.text(), "RoundedWall");
    assert_eq!(Name::SpeedUp.text(), "SpeedUp");
    assert_eq!(Name::TowerA.text(), "TowerA");
    assert_eq!(Name::TowerC.text(), "TowerC");
    assert_eq!(Name::Wall.text(), "Wall");
    assert_eq!(Name::Workbench.text(), "Workbench");
}
