use bomberbevy::audio::Sound;
use bomberbevy::bomb::{drop_bomb, explode_bomb, Bomb};
use bomberbevy::collider::{
    explosion_collision_listener, player_and_flag_collision_listener, CollisionEvent,
};
use bomberbevy::logic::{has_finalized, has_lose, Flag, GameLogicPlugin};
use bomberbevy::map::Breakable;
use bomberbevy::player::{spawn_player, Player};
use bomberbevy::state::GameState;
use bomberbevy::utils::{Body, DropTable, Label, Model, Name, Prefab, Shape, Spawn};
use bomberbevy::world::{Command, Kind, Vec3, World};

fn playing() -> World {
    let mut world = World::new();
    world.set_state(GameState::Gameplay);
    world
}

fn breakable() -> Kind {
    Kind::Breakable(Breakable {
        position: Vec3 { x: 1000, y: 200, z: 0 },
        drops: DropTable::canonical(),
    })
}

fn count_flags(world: &World) -> usize {
    (0..world.len()).filter(|row| matches!(world.get(*row).kind, Kind::Flag(_))).count()
}

fn count_breakables(world: &World) -> usize {
    (0..world.len()).filter(|row| matches!(world.get(*row).kind, Kind::Breakable(_))).count()
}

#[test]
fn flag_is_raised_when_no_breakable_is_left() {
    let mut world = playing();
    spawn_player(&mut world, 1);
    world.drain_commands();
    assert!(has_finalized(&mut world));
    assert_eq!(world.kind(1), Some(Kind::Flag(Flag { position: Vec3 { x: 100, y: 200, z: -100 } })));
    assert_eq!(
        world.drain_commands(),
        vec![Command::Spawn(Spawn {
            entity: 1,
            prefab: Prefab {
                label: Label::Object(Name::EndFlag),
                model: Model::Flag,
                translation: Vec3 { x: 100, y: 200, z: -100 },
                scale: Vec3 { x: 570, y: 1000, z: 570 },
                rotation: 0,
                collider: Shape::Cuboid(Vec3 { x: 300, y: 300, z: 300 }),
                body: Some(Body::Fixed),
                sensor: true,
                collision_events: true,
                animated_rotation: false,
                kind: Some(Kind::Flag(Flag { position: Vec3 { x: 100, y: 200, z: -100 } })),
            },
        })]
    );
    assert_eq!(world.state(), GameState::Gameplay);
}

#[test]
fn flag_is_raised_once() {
    let mut world = playing();
    assert!(has_finalized(&mut world));
    for _ in 0..5 {
        assert!(!has_finalized(&mut world));
    }
    assert_eq!(count_flags(&world), 1);
    assert_eq!(world.drain_commands().len(), 1);
}

#[test]
fn no_flag_while_a_breakable_is_left() {
    let mut world = playing();
    world.spawn(breakable());
    assert!(!has_finalized(&mut world));
    assert!(!world.any_flag());
    assert_eq!(world.drain_commands(), vec![]);
}

#[test]
fn no_flag_outside_of_play() {
    let mut world = World::new();
    for state in [GameState::Menu, GameState::Loading, GameState::GameOver, GameState::NextLevel] {
        world.set_state(state);
        assert!(!has_finalized(&mut world));
    }
    assert_eq!(world.len(), 0);
}

#[test]
fn player_without_bombs_and_with_breakables_left_has_lost() {
    let mut world = playing();
    spawn_player(&mut world, 0);
    world.spawn(breakable());
    world.drain_commands();
    assert!(has_lose(&mut world));
    assert_eq!(world.state(), GameState::GameOver);
    assert_eq!(world.drain_commands(), vec![]);
    assert_eq!(world.len(), 2);
}

#[test]
fn no_loss_while_a_bomb_is_left() {
    let mut world = playing();
    spawn_player(&mut world, 1);
    world.spawn(breakable());
    assert!(!has_lose(&mut world));
    assert_eq!(world.state(), GameState::Gameplay);
}

#[test]
fn no_loss_while_a_fuse_burns() {
    let mut world = playing();
    spawn_player(&mut world, 1);
    world.spawn(breakable());
    drop_bomb(&mut world, true, 350_000_000, Vec3 { x: 0, y: 0, z: 0 });
    assert_eq!(world.player().unwrap().1.bomb_amount, 0);
    assert!(!has_lose(&mut world));
    explode_bomb(&mut world, 2_999_999_999);
    assert!(!has_lose(&mut world));
    explode_bomb(&mut world, 1);
    assert!(has_lose(&mut world));
    assert_eq!(world.state(), GameState::GameOver);
}

#[test]
fn no_loss_without_breakables() {
    let mut world = playing();
    spawn_player(&mut world, 0);
    assert!(!has_lose(&mut world));
    assert_eq!(world.state(), GameState::Gameplay);
}

#[test]
fn no_loss_without_exactly_one_player() {
    let mut world = playing();
    world.spawn(breakable());
    assert!(!has_lose(&mut world));
    world.spawn(Kind::Player(Player::new(0)));
    world.spawn(Kind::Player(Player::new(0)));
    assert!(!has_lose(&mut world));
    assert_eq!(world.state(), GameState::Gameplay);
}

#[test]
fn no_loss_outside_of_play() {
    let mut world = World::new();
    spawn_player(&mut world, 0);
    world.spawn(breakable());
    for state in [GameState::Menu, GameState::Loading, GameState::GameOver, GameState::NextLevel] {
        world.set_state(state);
        assert!(!has_lose(&mut world));
        assert_eq!(world.state(), state);
    }
}

#[test]
fn win_and_loss_never_come_together() {
    for bombs in [0, 1] {
        for breakables in [0, 1, 2] {
            for live_bomb in [false, true] {
                for flag in [false, true] {
                    let mut world = playing();
                    spawn_player(&mut world, bombs);
                    for _ in 0..breakables {
                        world.spawn(breakable());
                    }
                    if live_bomb {
                        world.spawn(Kind::Bomb(Bomb::new(1000)));
                    }
                    if flag {
                        world.spawn(Kind::Flag(Flag { position: Vec3 { x: 0, y: 0, z: 0 } }));
                    }
                    let (won, lost) = GameLogicPlugin.update(&mut world);
                    assert!(!(won && lost));
                    assert_eq!(won, breakables == 0 && !flag);
                    assert_eq!(lost, breakables > 0 && bombs == 0 && !live_bomb);
                    let mut other = playing();
                    spawn_player(&mut other, bombs);
                    for _ in 0..breakables {
                        other.spawn(breakable());
                    }
                    if live_bomb {
                        other.spawn(Kind::Bomb(Bomb::new(1000)));
                    }
                    if flag {
                        other.spawn(Kind::Flag(Flag { position: Vec3 { x: 0, y: 0, z: 0 } }));
                    }
                    let lost_first = has_lose(&mut other);
                    let won_after = has_finalized(&mut other);
                    assert!(!(lost_first && won_after));
                    assert_eq!(lost_first, lost);
                }
            }
        }
    }
}

#[test]
fn full_clear() {
    let mut world = playing();
    let player = spawn_player(&mut world, 2);
    let first = world.spawn(breakable());
    let second = world.spawn(breakable());
    assert_eq!(world.player().unwrap().1.bomb_range, 1000);
    world.drain_commands();

    drop_bomb(&mut world, true, 350_000_000, Vec3 { x: 500, y: 0, z: 0 });
    drop_bomb(&mut world, true, 350_000_000, Vec3 { x: 1500, y: 0, z: 0 });
    let bombs: Vec<u64> = world
        .drain_commands()
        .iter()
        .filter_map(|command| match command {
            Command::Spawn(spawn) => Some(spawn.entity),
            _ => None,
        })
        .collect();
    assert_eq!(bombs.len(), 2);
    assert_eq!(world.player().unwrap().1.bomb_amount, 0);
    assert!(!has_finalized(&mut world));
    assert!(!has_lose(&mut world));

    explode_bomb(&mut world, 3_000_000_000);
    let events = vec![
        CollisionEvent::Started(bombs[0], first),
        CollisionEvent::Started(bombs[1], second),
    ];
    explosion_collision_listener(&mut world, &events);
    assert_eq!(count_breakables(&world), 0);
    world.drain_commands();

    assert!(has_finalized(&mut world));
    assert!(!has_lose(&mut world));
    assert_eq!(count_flags(&world), 1);
    let flag = match world.drain_commands().as_slice() {
        [Command::Spawn(spawn)] => spawn.entity,
        other => panic!("one flag should be raised: {:?}", other),
    };
    assert_eq!(world.state(), GameState::Gameplay);

    explode_bomb(&mut world, 16_000_000);
    assert!(!has_finalized(&mut world));
    assert!(!has_lose(&mut world));
    assert_eq!(count_flags(&world), 1);
    assert_eq!(world.state(), GameState::Gameplay);

    player_and_flag_collision_listener(&mut world, &vec![CollisionEvent::Started(player, flag)]);
    assert_eq!(world.state(), GameState::NextLevel);
    assert_eq!(count_flags(&world), 0);
    assert_eq!(
        world.drain_commands(),
        vec![Command::Despawn(flag), Command::PlaySound(Sound::WonLevel)]
    );
}

#[test]
fn deadlock_loss() {
    let mut world = playing();
    spawn_player(&mut world, 0);
    world.spawn(breakable());
    assert!(!world.any_live_bomb());
    assert!(world.any_breakable());
    assert!(has_lose(&mut world));
    assert_eq!(world.state(), GameState::GameOver);
    assert!(!has_lose(&mut world));
    assert_eq!(world.state(), GameState::GameOver);
}
