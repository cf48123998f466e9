use bomberbevy::bomb::Bomb;
use bomberbevy::collider::{InteractiveItem, UpgradeType};
use bomberbevy::logic::Flag;
use bomberbevy::map::Breakable;
use bomberbevy::player::Player;
use bomberbevy::state::{GameState, Level};
use bomberbevy::utils::{describe_flag, DropTable, Spawn};
use bomberbevy::world::{add_capped, Command, Kind, Object, Vec3, World};

const ORIGIN: Vec3 = Vec3 { x: 0, y: 0, z: 0 };

fn item() -> Kind {
    Kind::Item(InteractiveItem { upgrade: UpgradeType::Bomb })
}

#[test]
fn new_world_is_empty() {
    let mut world = World::new();
    assert_eq!(world.len(), 0);
    assert_eq!(world.room(), u64::MAX);
    assert_eq!(world.player(), None);
    assert_eq!(world.single_player(), None);
    assert!(!world.any_breakable());
    assert!(!world.any_flag());
    assert!(!world.any_live_bomb());
    assert_eq!(world.drain_commands(), vec![]);
}

#[test]
fn handles_are_handed_out_in_order() {
    let mut world = World::new();
    assert_eq!(world.spawn(item()), 0);
    assert_eq!(world.reserve(), 1);
    assert_eq!(world.spawn(item()), 2);
    assert_eq!(world.len(), 2);
    assert_eq!(world.room(), u64::MAX - 3);
    assert_eq!(world.get(0), Object { id: 0, kind: item() });
    assert_eq!(world.get(1), Object { id: 2, kind: item() });
    assert_eq!(world.find(0), Some(0));
    assert_eq!(world.find(1), None);
    assert_eq!(world.find(2), Some(1));
    assert_eq!(world.kind(2), Some(item()));
    assert_eq!(world.kind(1), None);
}

#[test]
fn handles_are_not_used_twice() {
    let mut world = World::new();
    let first = world.spawn(item());
    assert!(world.despawn(first));
    let second = world.spawn(item());
    assert_ne!(first, second);
    assert_eq!(world.kind(first), None);
    assert_eq!(world.kind(second), Some(item()));
}

#[test]
fn despawn_removes_one_object() {
    let mut world = World::new();
    let a = world.spawn(item());
    let b = world.spawn(Kind::Flag(Flag { position: ORIGIN }));
    let c = world.spawn(item());
    assert!(world.despawn(b));
    assert!(!world.despawn(b));
    assert!(!world.despawn(77));
    assert_eq!(world.len(), 2);
    assert_eq!(world.get(0).id, a);
    assert_eq!(world.get(1).id, c);
    assert!(!world.any_flag());
    assert_eq!(world.drain_commands(), vec![]);
}

#[test]
fn replace_changes_the_data_of_one_object() {
    let mut world = World::new();
    let a = world.spawn(item());
    let b = world.spawn(item());
    assert!(world.replace(a, Kind::Player(Player::new(4))));
    assert!(!world.replace(9, Kind::Player(Player::new(4))));
    assert_eq!(world.kind(a), Some(Kind::Player(Player::new(4))));
    assert_eq!(world.kind(b), Some(item()));
    assert_eq!(world.len(), 2);
}

#[test]
fn single_player_needs_exactly_one() {
    let mut world = World::new();
    world.spawn(item());
    assert_eq!(world.single_player(), None);
    let first = world.spawn(Kind::Player(Player::new(1)));
    assert_eq!(world.single_player(), Some(1));
    assert_eq!(world.player(), Some((first, Player::new(1))));
    let second = world.spawn(Kind::Player(Player::new(2)));
    assert_eq!(world.single_player(), None);
    assert_eq!(world.player(), None);
    world.despawn(first);
    assert_eq!(world.player(), Some((second, Player::new(2))));
}

#[test]
fn kinds_are_found_in_the_table() {
    let mut world = World::new();
    world.spawn(item());
    assert!(!world.any_breakable());
    let block =
        world.spawn(Kind::Breakable(Breakable { position: ORIGIN, drops: DropTable::canonical() }));
    assert!(world.any_breakable());
    world.despawn(block);
    assert!(!world.any_breakable());
    let mut spent = Bomb::new(1000);
    spent.tick(3_000_000_000);
    world.spawn(Kind::Bomb(spent));
    assert!(!world.any_live_bomb());
    world.spawn(Kind::Bomb(Bomb::new(1000)));
    assert!(world.any_live_bomb());
}

#[test]
fn place_tells_the_host_and_tracks_what_has_a_kind() {
    let mut world = World::new();
    let flag = describe_flag();
    let mut scenery = flag;
    scenery.kind = None;
    assert_eq!(world.place(scenery), 0);
    assert_eq!(world.place(flag), 1);
    assert_eq!(world.len(), 1);
    assert!(world.any_flag());
    assert_eq!(
        world.drain_commands(),
        vec![
            Command::Spawn(Spawn { entity: 0, prefab: scenery }),
            Command::Spawn(Spawn { entity: 1, prefab: flag }),
        ]
    );
}

#[test]
fn commands_come_out_oldest_first_and_once() {
    let mut world = World::new();
    world.emit(Command::Despawn(3));
    world.emit(Command::ActivateCollider(4));
    assert_eq!(world.drain_commands(), vec![Command::Despawn(3), Command::ActivateCollider(4)]);
    assert_eq!(world.drain_commands(), vec![]);
}

#[test]
fn despawn_all_clears_the_table() {
    let mut world = World::new();
    let a = world.spawn(item());
    world.reserve();
    let b = world.spawn(Kind::Player(Player::new(1)));
    world.emit(Command::ActivateCollider(a));
    world.despawn_all();
    assert_eq!(world.len(), 0);
    assert_eq!(
        world.drain_commands(),
        vec![Command::ActivateCollider(a), Command::Despawn(a), Command::Despawn(b)]
    );
    assert_eq!(world.spawn(item()), 3);
}

#[test]
fn state_and_level_can_be_set() {
    let mut world = World::new();
    world.set_state(GameState::Loading);
    world.set_level(Level::Level3);
    assert_eq!(world.state(), GameState::Loading);
    assert_eq!(world.level(), Level::Level3);
}

#[test]
fn capped_sum_stays_in_range() {
    assert_eq!(add_capped(2, 3), 5);
    assert_eq!(add_capped(-2, -3), -5);
    assert_eq!(add_capped(i64::MAX, 1), i64::MAX);
    assert_eq!(add_capped(i64::MIN, -1), i64::MIN);
    assert_eq!(add_capped(i64::MAX, i64::MIN), -1);
    assert_eq!(
        Vec3 { x: 1, y: i64::MAX, z: i64::MIN }.offset(Vec3 { x: 2, y: 5, z: -5 }),
        Vec3 { x: 3, y: i64::MAX, z: i64::MIN }
    );
}
