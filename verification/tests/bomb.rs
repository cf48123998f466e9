use bomberbevy::audio::Sound;
use bomberbevy::bomb::{drop_bomb, explode_bomb, Bar, Bomb, BombPhase, FuseStep, HitRegion};
use bomberbevy::constants::{BLAST_HALF_THICKNESS, BOMB_EXPLOSION_TIME};
use bomberbevy::player::{spawn_player, Player};
use bomberbevy::state::GameState;
use bomberbevy::timer::Timer;
use bomberbevy::utils::{Label, Model, Name, Prefab, Shape, Spawn};
use bomberbevy::world::{Command, Kind, Vec3, World};

fn playing_world(bombs: u32) -> World {
    let mut world = World::new();
    world.set_state(GameState::Gameplay);
    spawn_player(&mut world, bombs);
    world.drain_commands();
    world
}

fn lay(world: &mut World) -> u64 {
    drop_bomb(world, true, 350_000_000, Vec3 { x: 1000, y: 0, z: -2000 });
    match world.drain_commands()[0] {
        Command::Spawn(spawn) => spawn.entity,
        _ => panic!("no bomb was laid"),
    }
}

#[test]
fn new_bomb_is_armed_with_a_full_fuse() {
    let bomb = Bomb::new(1500);
    assert_eq!(bomb.explode_timer, Timer { duration: 3_000_000_000, elapsed: 0 });
    assert_eq!(bomb.explosion_range, 1500);
    assert!(!bomb.armed_for_collision);
    assert_eq!(bomb.phase(), BombPhase::Armed);
    assert_eq!(BOMB_EXPLOSION_TIME, 3);
}

#[test]
fn fuse_comes_closer_with_every_tick() {
    let mut bomb = Bomb::new(1000);
    let mut left = bomb.explode_timer.remaining();
    for _ in 0..20 {
        let step = bomb.tick(100_000_000);
        assert!(bomb.explode_timer.remaining() < left);
        left = bomb.explode_timer.remaining();
        assert_eq!(step, FuseStep { activated: false, exploded: false });
    }
    assert_eq!(left, 1_000_000_000);
    assert_eq!(bomb.phase(), BombPhase::Armed);
}

#[test]
fn bomb_is_primed_in_the_last_hundredth() {
    let mut bomb = Bomb::new(1000);
    let step = bomb.tick(2_969_999_999);
    assert_eq!(step, FuseStep { activated: false, exploded: false });
    assert_eq!(bomb.phase(), BombPhase::Armed);
    assert!(!bomb.armed_for_collision);
    let step = bomb.tick(1);
    assert_eq!(step, FuseStep { activated: true, exploded: false });
    assert_eq!(bomb.phase(), BombPhase::PrimedForExplosion);
    assert!(bomb.armed_for_collision);
    let step = bomb.tick(10_000_000);
    assert_eq!(step, FuseStep { activated: false, exploded: false });
    assert_eq!(bomb.phase(), BombPhase::PrimedForExplosion);
}

#[test]
fn bomb_explodes_once_when_the_fuse_runs_out() {
    let mut bomb = Bomb::new(1000);
    bomb.tick(2_990_000_000);
    let step = bomb.tick(10_000_000);
    assert_eq!(step, FuseStep { activated: false, exploded: true });
    assert_eq!(bomb.phase(), BombPhase::Exploded);
    assert!(bomb.armed_for_collision);
    let mut explosions = 1;
    for _ in 0..5 {
        if bomb.tick(1_000_000_000).exploded {
            explosions += 1;
        }
    }
    assert_eq!(explosions, 1);
    assert_eq!(bomb.phase(), BombPhase::Exploded);
}

#[test]
fn long_tick_primes_and_explodes_at_once() {
    let mut bomb = Bomb::new(1000);
    let step = bomb.tick(5_000_000_000);
    assert_eq!(step, FuseStep { activated: true, exploded: true });
    assert_eq!(bomb.explode_timer.remaining(), 0);
}

#[test]
fn time_does_not_run_backward_on_a_fuse() {
    let mut bomb = Bomb::new(1000);
    bomb.tick(1_000_000_000);
    let before = bomb;
    let step = bomb.tick(-500_000_000);
    assert_eq!(step, FuseStep { activated: false, exploded: false });
    assert_eq!(bomb, before);
}

#[test]
fn hit_region_is_a_cross_of_two_bars() {
    let region = Bomb::new(2000).hit_region();
    assert_eq!(
        region,
        HitRegion {
            along_x: Bar { half_x: 2000, half_y: 50, half_z: 50 },
            along_z: Bar { half_x: 50, half_y: 50, half_z: 2000 },
        }
    );
    assert_eq!(BLAST_HALF_THICKNESS, 50);
}

#[test]
fn hit_region_covers_the_cross_and_its_faces() {
    let region = Bomb::new(2000).hit_region();
    assert!(region.contains(0, 0, 0));
    assert!(region.contains(2000, 0, 0));
    assert!(region.contains(-2000, 50, -50));
    assert!(region.contains(0, 0, 2000));
    assert!(region.contains(50, -50, -2000));
    assert!(!region.contains(2001, 0, 0));
    assert!(!region.contains(0, 0, -2001));
    assert!(!region.contains(0, 51, 0));
    assert!(!region.contains(51, 0, 51));
    assert!(!region.contains(2000, 0, 2000));
    assert!(region.along_x.contains(2000, 0, 0));
    assert!(!region.along_z.contains(2000, 0, 0));
}

#[test]
fn drop_bomb_lays_a_bomb_at_the_player() {
    let mut world = playing_world(2);
    drop_bomb(&mut world, true, 350_000_000, Vec3 { x: 1000, y: 0, z: -2000 });
    let bomb = Bomb::new(1000);
    assert_eq!(
        world.drain_commands(),
        vec![
            Command::Spawn(Spawn {
                entity: 1,
                prefab: Prefab {
                    label: Label::Object(Name::Bomb),
                    model: Model::Bomb,
                    translation: Vec3 { x: 1000, y: 100, z: -2000 },
                    scale: Vec3 { x: 500, y: 500, z: 500 },
                    rotation: 0,
                    collider: Shape::Cross(HitRegion {
                        along_x: Bar { half_x: 1000, half_y: 50, half_z: 50 },
                        along_z: Bar { half_x: 50, half_y: 50, half_z: 1000 },
                    }),
                    body: None,
                    sensor: true,
                    collision_events: false,
                    animated_rotation: false,
                    kind: Some(Kind::Bomb(bomb)),
                },
            }),
            Command::PlaySound(Sound::BombStart),
        ]
    );
    assert_eq!(world.kind(1), Some(Kind::Bomb(bomb)));
    assert_eq!(world.player().unwrap().1.bomb_amount, 1);
    assert_eq!(world.player().unwrap().1.bomb_delay, Timer { duration: 350_000_000, elapsed: 0 });
    assert!(world.any_live_bomb());
}

#[test]
fn drop_bomb_copies_the_range_of_the_player() {
    let mut world = playing_world(1);
    let (id, mut player) = world.player().unwrap();
    player.bomb_range = 3000;
    world.replace(id, Kind::Player(player));
    let bomb = lay(&mut world);
    match world.kind(bomb) {
        Some(Kind::Bomb(bomb)) => assert_eq!(bomb.explosion_range, 3000),
        other => panic!("not a bomb: {:?}", other),
    }
}

#[test]
fn drop_bomb_waits_for_the_key() {
    let mut world = playing_world(2);
    drop_bomb(&mut world, false, 350_000_000, Vec3 { x: 0, y: 0, z: 0 });
    assert_eq!(world.drain_commands(), vec![]);
    assert_eq!(world.len(), 1);
    let player = world.player().unwrap().1;
    assert_eq!(player.bomb_amount, 2);
    assert!(player.bomb_delay.finished());
}

#[test]
fn drop_bomb_waits_for_the_cooldown() {
    let mut world = playing_world(2);
    drop_bomb(&mut world, true, 349_999_999, Vec3 { x: 0, y: 0, z: 0 });
    assert_eq!(world.drain_commands(), vec![]);
    assert_eq!(world.player().unwrap().1.bomb_delay.remaining(), 1);
    drop_bomb(&mut world, true, 1, Vec3 { x: 0, y: 0, z: 0 });
    assert_eq!(world.drain_commands().len(), 2);
    assert_eq!(world.player().unwrap().1.bomb_amount, 1);
}

#[test]
fn drop_bomb_lays_one_bomb_per_cooldown() {
    let mut world = playing_world(9);
    drop_bomb(&mut world, true, 350_000_000, Vec3 { x: 0, y: 0, z: 0 });
    for _ in 0..20 {
        drop_bomb(&mut world, true, 17_000_000, Vec3 { x: 0, y: 0, z: 0 });
    }
    assert_eq!(world.len(), 2);
    assert_eq!(world.player().unwrap().1.bomb_amount, 8);
    drop_bomb(&mut world, true, 10_000_000, Vec3 { x: 0, y: 0, z: 0 });
    assert_eq!(world.len(), 3);
    assert_eq!(world.player().unwrap().1.bomb_amount, 7);
}

#[test]
fn drop_bomb_needs_a_bomb() {
    let mut world = playing_world(0);
    drop_bomb(&mut world, true, 350_000_000, Vec3 { x: 0, y: 0, z: 0 });
    assert_eq!(world.drain_commands(), vec![]);
    assert_eq!(world.len(), 1);
}

#[test]
fn drop_bomb_rests_outside_of_play() {
    let mut world = playing_world(2);
    world.set_state(GameState::Menu);
    drop_bomb(&mut world, true, 350_000_000, Vec3 { x: 0, y: 0, z: 0 });
    assert_eq!(world.drain_commands(), vec![]);
    assert_eq!(world.player(), Some((0, Player::new(2))));
}

#[test]
fn drop_bomb_skips_a_world_without_its_one_player() {
    let mut world = World::new();
    world.set_state(GameState::Gameplay);
    drop_bomb(&mut world, true, 350_000_000, Vec3 { x: 0, y: 0, z: 0 });
    assert_eq!(world.len(), 0);
    spawn_player(&mut world, 1);
    spawn_player(&mut world, 1);
    world.drain_commands();
    drop_bomb(&mut world, true, 350_000_000, Vec3 { x: 0, y: 0, z: 0 });
    assert_eq!(world.drain_commands(), vec![]);
    assert_eq!(world.len(), 2);
    assert_eq!(world.kind(0), Some(Kind::Player(Player::new(1))));
}

#[test]
fn explode_bomb_burns_every_fuse() {
    let mut world = playing_world(2);
    let first = lay(&mut world);
    explode_bomb(&mut world, 1_000_000_000);
    let second = lay(&mut world);
    explode_bomb(&mut world, 500_000_000);
    assert_eq!(world.drain_commands(), vec![]);
    match (world.kind(first), world.kind(second)) {
        (Some(Kind::Bomb(a)), Some(Kind::Bomb(b))) => {
            assert_eq!(a.explode_timer.remaining(), 1_500_000_000);
            assert_eq!(b.explode_timer.remaining(), 2_500_000_000);
        },
        other => panic!("bombs are missing: {:?}", other),
    }
}

#[test]
fn explode_bomb_switches_the_hit_region_on_once() {
    let mut world = playing_world(1);
    let bomb = lay(&mut world);
    explode_bomb(&mut world, 2_970_000_000);
    assert_eq!(world.drain_commands(), vec![Command::ActivateCollider(bomb)]);
    explode_bomb(&mut world, 10_000_000);
    assert_eq!(world.drain_commands(), vec![]);
    assert!(world.any_live_bomb());
}

#[test]
fn explode_bomb_removes_a_bomb_once() {
    let mut world = playing_world(1);
    let bomb = lay(&mut world);
    explode_bomb(&mut world, 2_980_000_000);
    world.drain_commands();
    explode_bomb(&mut world, 20_000_000);
    assert_eq!(
        world.drain_commands(),
        vec![Command::Despawn(bomb), Command::PlaySound(Sound::BombExplosion)]
    );
    assert!(!world.any_live_bomb());
    match world.kind(bomb) {
        Some(Kind::Bomb(left)) => assert_eq!(left.phase(), BombPhase::Exploded),
        other => panic!("the bomb should stay for this tick: {:?}", other),
    }
    explode_bomb(&mut world, 16_000_000);
    assert_eq!(world.drain_commands(), vec![]);
    assert_eq!(world.kind(bomb), None);
    assert_eq!(world.len(), 1);
    explode_bomb(&mut world, 16_000_000);
    assert_eq!(world.drain_commands(), vec![]);
}

#[test]
fn explode_bomb_primes_and_explodes_in_one_long_tick() {
    let mut world = playing_world(1);
    let bomb = lay(&mut world);
    explode_bomb(&mut world, 3_000_000_000);
    assert_eq!(
        world.drain_commands(),
        vec![
            Command::ActivateCollider(bomb),
            Command::Despawn(bomb),
            Command::PlaySound(Sound::BombExplosion),
        ]
    );
}

#[test]
fn explode_bomb_keeps_the_order_of_the_table() {
    let mut world = playing_world(3);
    let first = lay(&mut world);
    let second = lay(&mut world);
    let third = lay(&mut world);
    explode_bomb(&mut world, 3_000_000_000);
    assert_eq!(
        world.drain_commands(),
        vec![
            Command::ActivateCollider(first),
            Command::Despawn(first),
            Command::PlaySound(Sound::BombExplosion),
            Command::ActivateCollider(second),
            Command::Despawn(second),
            Command::PlaySound(Sound::BombExplosion),
            Command::ActivateCollider(third),
            Command::Despawn(third),
            Command::PlaySound(Sound::BombExplosion),
        ]
    );
    assert_eq!(world.len(), 4);
    explode_bomb(&mut world, 1);
    assert_eq!(world.len(), 1);
    assert_eq!(world.get(0).id, 0);
}

#[test]
fn explode_bomb_ignores_time_that_runs_backward() {
    let mut world = playing_world(1);
    let bomb = lay(&mut world);
    explode_bomb(&mut world, -3_000_000_000);
    assert_eq!(world.drain_commands(), vec![]);
    assert_eq!(world.kind(bomb), Some(Kind::Bomb(Bomb::new(1000))));
}

#[test]
fn explode_bomb_rests_outside_of_play() {
    let mut world = playing_world(1);
    let bomb = lay(&mut world);
    world.set_state(GameState::GameOver);
    explode_bomb(&mut world, 3_000_000_000);
    assert_eq!(world.drain_commands(), vec![]);
    assert_eq!(world.kind(bomb), Some(Kind::Bomb(Bomb::new(1000))));
}

#[test]
fn drop_bomb_returns_the_handle_of_the_bomb() {
    let mut world = playing_world(2);
    assert_eq!(drop_bomb(&mut world, true, 100_000_000, Vec3 { x: 0, y: 0, z: 0 }), None);
    assert_eq!(drop_bomb(&mut world, false, 250_000_000, Vec3 { x: 0, y: 0, z: 0 }), None);
    let laid = drop_bomb(&mut world, true, 0, Vec3 { x: 0, y: 0, z: 0 });
    assert_eq!(laid, Some(1));
    assert!(matches!(world.kind(1), Some(Kind::Bomb(_))));
    assert_eq!(drop_bomb(&mut world, true, 349_000_000, Vec3 { x: 0, y: 0, z: 0 }), None);
    assert_eq!(drop_bomb(&mut world, true, 1_000_000, Vec3 { x: 0, y: 0, z: 0 }), Some(2));
    assert_eq!(drop_bomb(&mut world, true, 350_000_000, Vec3 { x: 0, y: 0, z: 0 }), None);
}
