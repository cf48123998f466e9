use bomberbevy::collider::{InteractiveItem, UpgradeType};
use bomberbevy::constants::DROP_ROLL_SIDES;
use bomberbevy::state::GameState;
use bomberbevy::utils::{
    describe_upgrade, drop_upgrade, possibly_spawn_upgrade, DropTable, Model, Name,
};
use bomberbevy::world::{Command, Kind, Vec3, World};

#[test]
fn drop_table_boundary() {
    let table = DropTable::canonical();
    assert_eq!(table.upgrade_for_roll(20), UpgradeType::Nothing);
    assert_eq!(table.upgrade_for_roll(0), UpgradeType::Fire);
    let mut world = World::new();
    world.set_state(GameState::Gameplay);
    assert_eq!(drop_upgrade(&mut world, Vec3 { x: 0, y: 0, z: 0 }, table, 20), None);
    assert_eq!(world.len(), 0);
    assert_eq!(world.drain_commands(), vec![]);
    assert_eq!(drop_upgrade(&mut world, Vec3 { x: 0, y: 0, z: 0 }, table, 0), Some(0));
    assert_eq!(world.kind(0), Some(Kind::Item(InteractiveItem { upgrade: UpgradeType::Fire })));
}

#[test]
fn canonical_table_has_three_buckets() {
    let table = DropTable::canonical();
    assert_eq!(table, DropTable { fire_end: 6, bomb_end: 16, speed_end: 20 });
    assert_eq!(DropTable::default(), table);
    for roll in 0..100 {
        let expected = if roll <= 5 {
            UpgradeType::Fire
        } else if roll <= 15 {
            UpgradeType::Bomb
        } else if roll < 20 {
            UpgradeType::Speed
        } else {
            UpgradeType::Nothing
        };
        assert_eq!(table.upgrade_for_roll(roll), expected);
    }
    assert_eq!(table.upgrade_for_roll(u32::MAX), UpgradeType::Nothing);
}

#[test]
fn other_tables_set_other_bounds() {
    let table = DropTable { fire_end: 10, bomb_end: 10, speed_end: 50 };
    assert_eq!(table.upgrade_for_roll(9), UpgradeType::Fire);
    assert_eq!(table.upgrade_for_roll(10), UpgradeType::Speed);
    assert_eq!(table.upgrade_for_roll(49), UpgradeType::Speed);
    assert_eq!(table.upgrade_for_roll(50), UpgradeType::Nothing);
    let backward = DropTable { fire_end: 30, bomb_end: 20, speed_end: 10 };
    assert_eq!(backward.upgrade_for_roll(25), UpgradeType::Fire);
    assert_eq!(backward.upgrade_for_roll(30), UpgradeType::Nothing);
}

#[test]
fn upgrades_have_their_looks() {
    let fire = describe_upgrade(UpgradeType::Fire);
    assert_eq!((fire.path, fire.name), (Model::FireUp, Name::FireUp));
    let bomb = describe_upgrade(UpgradeType::Bomb);
    assert_eq!((bomb.path, bomb.name), (Model::BombUp, Name::BombUp));
    let speed = describe_upgrade(UpgradeType::Speed);
    assert_eq!((speed.path, speed.name), (Model::SpeedUp, Name::SpeedUp));
    for props in [fire, bomb, speed] {
        assert!(props.add_floor);
        assert!(!props.is_floor);
        assert!(props.animated_rotation);
        assert!(!props.breakable);
        let custom = props.custom.unwrap();
        assert_eq!(custom.scale, Vec3 { x: 200, y: 300, z: 200 });
        assert_eq!(custom.sum_translation, Vec3 { x: 0, y: 0, z: 0 });
        assert_eq!(custom.rotation, 0);
    }
    assert!(UpgradeType::Fire.is_upgrade());
    assert!(!UpgradeType::Nothing.is_upgrade());
}

#[test]
fn roll_is_below_one_hundred_and_decides_the_drop() {
    assert_eq!(DROP_ROLL_SIDES, 100);
    let table = DropTable::canonical();
    let mut seen_drop = false;
    let mut seen_none = false;
    for _ in 0..400 {
        let mut world = World::new();
        let roll = possibly_spawn_upgrade(&mut world, Vec3 { x: 10, y: 20, z: 30 }, table);
        assert!(roll < 100);
        let commands = world.drain_commands();
        match table.upgrade_for_roll(roll) {
            UpgradeType::Nothing => {
                seen_none = true;
                assert_eq!(world.len(), 0);
                assert_eq!(commands, vec![]);
            },
            upgrade => {
                seen_drop = true;
                assert_eq!(world.kind(0), Some(Kind::Item(InteractiveItem { upgrade })));
                match commands.as_slice() {
                    [Command::Spawn(spawn)] => {
                        assert_eq!(spawn.entity, 0);
                        assert_eq!(spawn.prefab.translation, Vec3 { x: 10, y: 20, z: 30 });
                    },
                    other => panic!("one pickup should be created: {:?}", other),
                }
            },
        }
    }
    assert!(seen_drop);
    assert!(seen_none);
}

#[test]
fn rolls_are_not_all_the_same() {
    let table = DropTable { fire_end: 0, bomb_end: 0, speed_end: 0 };
    let mut world = World::new();
    let first = possibly_spawn_upgrade(&mut world, Vec3 { x: 0, y: 0, z: 0 }, table);
    let mut differs = false;
    for _ in 0..200 {
        if possibly_spawn_upgrade(&mut world, Vec3 { x: 0, y: 0, z: 0 }, table) != first {
            differs = true;
        }
    }
    assert!(differs);
    assert_eq!(world.len(), 0);
}

#[test]
fn drop_position_stays_in_range() {
    let mut world = World::new();
    let table = DropTable { fire_end: 100, bomb_end: 100, speed_end: 100 };
    drop_upgrade(&mut world, Vec3 { x: i64::MAX, y: i64::MAX, z: i64::MIN }, table, 3);
    match world.drain_commands().as_slice() {
        [Command::Spawn(spawn)] => {
            assert_eq!(spawn.prefab.translation, Vec3 { x: i64::MAX, y: i64::MAX, z: i64::MIN });
        },
        other => panic!("one pickup should be created: {:?}", other),
    }
}
