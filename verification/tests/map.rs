use bomberbevy::collider::{InteractiveItem, UpgradeType};
use bomberbevy::map::{
    cell_position, check_map, create_basic_map, object_types, spawn_map_object, spawn_props,
    Breakable, CustomProps, MapError, ObjectProps,
};

fn props_of(code: i32) -> Option<ObjectProps> {
    object_types().get(code)
}
use bomberbevy::utils::{
    spawn_custom, spawn_floor, spawn_object, Body, DropTable, Label, Model, Name, Prefab, Shape,
    Spawn,
};
use bomberbevy::world::{Command, Kind, Vec3, World};

fn plain(name: Name, path: Model, add_floor: bool, is_floor: bool) -> ObjectProps {
    ObjectProps {
        name,
        add_floor,
        path,
        is_floor,
        upgrade: UpgradeType::Nothing,
        animated_rotation: false,
        breakable: false,
        custom: None,
    }
}

fn spawns(commands: &[Command]) -> Vec<Spawn> {
    commands
        .iter()
        .map(|command| match command {
            Command::Spawn(spawn) => *spawn,
            other => panic!("not a spawn: {:?}", other),
        })
        .collect()
}

fn tile(entity: u64, name: Name, model: Model, at: Vec3) -> Spawn {
    Spawn {
        entity,
        prefab: Prefab {
            label: Label::Floor(name),
            model,
            translation: at,
            scale: Vec3 { x: 570, y: 1000, z: 570 },
            rotation: 0,
            collider: Shape::Cuboid(Vec3 { x: 1000, y: 200, z: 1000 }),
            body: Some(Body::Fixed),
            sensor: false,
            collision_events: false,
            animated_rotation: false,
            kind: None,
        },
    }
}

fn scenery(entity: u64, name: Name, model: Model, at: Vec3) -> Spawn {
    Spawn {
        entity,
        prefab: Prefab {
            label: Label::Object(name),
            model,
            translation: at,
            scale: Vec3 { x: 570, y: 1000, z: 570 },
            rotation: 0,
            collider: Shape::Cuboid(Vec3 { x: 400, y: 400, z: 400 }),
            body: Some(Body::Fixed),
            sensor: false,
            collision_events: false,
            animated_rotation: false,
            kind: None,
        },
    }
}

#[test]
fn every_character_of_the_game_stands_for_its_object() {
    assert_eq!(props_of(32), Some(plain(Name::Floor, Model::Tile, false, true)));
    assert_eq!(props_of(87), Some(plain(Name::Wall, Model::TowerSquareSampleE, false, false)));
    assert_eq!(props_of(66), Some(plain(Name::Block, Model::TowerSquareMiddleA, true, false)));
    assert_eq!(
        props_of(82),
        Some(plain(Name::RoundedWall, Model::TowerSquareSampleE, true, false))
    );
    assert_eq!(props_of(35), Some(plain(Name::TowerA, Model::TowerSquareSampleA, false, false)));
    assert_eq!(props_of(36), Some(plain(Name::TowerC, Model::TowerSquareSampleE, false, false)));
    assert_eq!(
        props_of(37),
        Some(plain(Name::FloorStraight, Model::TileStraight, false, true))
    );
    assert_eq!(
        props_of(67),
        Some(ObjectProps {
            name: Name::Coin,
            add_floor: true,
            path: Model::SpeedUp,
            is_floor: false,
            upgrade: UpgradeType::Speed,
            animated_rotation: true,
            breakable: true,
            custom: Some(CustomProps {
                scale: Vec3 { x: 100, y: 300, z: 200 },
                rotation: 0,
                sum_translation: Vec3 { x: 0, y: 500, z: 0 },
            }),
        })
    );
    assert_eq!(
        props_of(64),
        Some(ObjectProps {
            name: Name::Workbench,
            add_floor: true,
            path: Model::Workbench,
            is_floor: false,
            upgrade: UpgradeType::Nothing,
            animated_rotation: false,
            breakable: true,
            custom: Some(CustomProps {
                scale: Vec3 { x: 500, y: 500, z: 600 },
                rotation: 0,
                sum_translation: Vec3 { x: 0, y: 200, z: 0 },
            }),
        })
    );
}

#[test]
fn other_characters_stand_for_nothing() {
    let known = [32, 35, 36, 37, 64, 66, 67, 82, 87];
    for code in -5..300 {
        assert_eq!(props_of(code).is_some(), known.contains(&code));
    }
    assert_eq!(props_of(i32::MAX), None);
    assert_eq!(props_of(i32::MIN), None);
}

#[test]
fn cells_lie_half_a_unit_apart() {
    assert_eq!(cell_position(0, 0), Vec3 { x: -6000, y: 0, z: -4000 });
    assert_eq!(cell_position(1, 0), Vec3 { x: -5500, y: 0, z: -4000 });
    assert_eq!(cell_position(0, 1), Vec3 { x: -6000, y: 0, z: -3500 });
    assert_eq!(cell_position(12, 8), Vec3 { x: 0, y: 0, z: 0 });
    assert_eq!(cell_position(25, 16), Vec3 { x: 6500, y: 0, z: 4000 });
}

#[test]
fn far_cells_stop_at_the_largest_coordinate() {
    assert_eq!(cell_position(usize::MAX, usize::MAX), Vec3 { x: i64::MAX, y: 0, z: i64::MAX });
    let last = (i64::MAX as usize) / 500;
    assert_eq!(cell_position(last, 0).x, (last as i64) * 500 - 6000);
}

#[test]
fn spawn_object_places_scenery_a_tenth_up() {
    let mut world = World::new();
    let props = plain(Name::Wall, Model::TowerSquareSampleE, false, false);
    let id = spawn_object(&mut world, &props, Vec3 { x: 500, y: 0, z: -500 });
    assert_eq!(id, 0);
    assert_eq!(world.len(), 0);
    assert_eq!(
        spawns(&world.drain_commands()),
        vec![scenery(0, Name::Wall, Model::TowerSquareSampleE, Vec3 { x: 500, y: 100, z: -500 })]
    );
}

#[test]
fn spawn_object_makes_a_pickup_larger_and_floating() {
    let mut world = World::new();
    let mut props = plain(Name::Coin, Model::SpeedUp, false, false);
    props.upgrade = UpgradeType::Speed;
    props.breakable = true;
    let id = spawn_object(&mut world, &props, Vec3 { x: 0, y: 0, z: 0 });
    let speed = Kind::Item(InteractiveItem { upgrade: UpgradeType::Speed });
    assert_eq!(world.kind(id), Some(speed));
    assert_eq!(
        spawns(&world.drain_commands()),
        vec![Spawn {
            entity: 0,
            prefab: Prefab {
                label: Label::Object(Name::Coin),
                model: Model::SpeedUp,
                translation: Vec3 { x: 0, y: 500, z: 0 },
                scale: Vec3 { x: 1070, y: 1500, z: 1070 },
                rotation: 0,
                collider: Shape::Cuboid(Vec3 { x: 300, y: 300, z: 300 }),
                body: Some(Body::Fixed),
                sensor: true,
                collision_events: true,
                animated_rotation: false,
                kind: Some(speed),
            },
        }]
    );
}

#[test]
fn spawn_floor_lays_the_plain_tile_or_the_own_model() {
    let mut world = World::new();
    let props = plain(Name::FloorStraight, Model::TileStraight, false, true);
    let at = Vec3 { x: 1000, y: 0, z: 2000 };
    assert_eq!(spawn_floor(&mut world, &props, at, true), 0);
    assert_eq!(spawn_floor(&mut world, &props, at, false), 1);
    assert_eq!(world.len(), 0);
    assert_eq!(
        spawns(&world.drain_commands()),
        vec![
            tile(0, Name::FloorStraight, Model::Tile, at),
            tile(1, Name::FloorStraight, Model::TileStraight, at),
        ]
    );
}

#[test]
fn spawn_custom_tracks_a_breakable_where_it_stands() {
    let mut world = World::new();
    let props = props_of(64).unwrap();
    let id = spawn_custom(&mut world, &props, Vec3 { x: -1000, y: 0, z: 1500 });
    let breakable = Kind::Breakable(Breakable {
        position: Vec3 { x: -1000, y: 200, z: 1500 },
        drops: DropTable::canonical(),
    });
    assert_eq!(world.kind(id), Some(breakable));
    assert!(world.any_breakable());
    assert_eq!(
        spawns(&world.drain_commands()),
        vec![Spawn {
            entity: 0,
            prefab: Prefab {
                label: Label::Object(Name::Workbench),
                model: Model::Workbench,
                translation: Vec3 { x: -1000, y: 200, z: 1500 },
                scale: Vec3 { x: 500, y: 500, z: 600 },
                rotation: 0,
                collider: Shape::Cuboid(Vec3 { x: 500, y: 500, z: 300 }),
                body: Some(Body::KinematicPositionBased),
                sensor: false,
                collision_events: false,
                animated_rotation: false,
                kind: Some(breakable),
            },
        }]
    );
}

#[test]
fn spawn_custom_makes_a_pickup_of_an_upgrade() {
    let mut world = World::new();
    let props = props_of(67).unwrap();
    let id = spawn_custom(&mut world, &props, Vec3 { x: 0, y: 0, z: 0 });
    let speed = Kind::Item(InteractiveItem { upgrade: UpgradeType::Speed });
    assert_eq!(world.kind(id), Some(speed));
    assert!(!world.any_breakable());
    assert_eq!(
        spawns(&world.drain_commands()),
        vec![Spawn {
            entity: 0,
            prefab: Prefab {
                label: Label::Object(Name::Coin),
                model: Model::SpeedUp,
                translation: Vec3 { x: 0, y: 500, z: 0 },
                scale: Vec3 { x: 100, y: 300, z: 200 },
                rotation: 0,
                collider: Shape::Cuboid(Vec3 { x: 300, y: 300, z: 300 }),
                body: Some(Body::Fixed),
                sensor: true,
                collision_events: true,
                animated_rotation: true,
                kind: Some(speed),
            },
        }]
    );
}

#[test]
fn spawn_custom_leaves_plain_scenery_untracked() {
    let mut world = World::new();
    let mut props = props_of(64).unwrap();
    props.breakable = false;
    spawn_custom(&mut world, &props, Vec3 { x: 0, y: 0, z: 0 });
    assert_eq!(world.len(), 0);
    let prefab = spawns(&world.drain_commands())[0].prefab;
    assert_eq!(prefab.body, None);
    assert_eq!(prefab.kind, None);
    assert_eq!(prefab.collider, Shape::Cuboid(Vec3 { x: 500, y: 500, z: 300 }));
}

#[test]
fn spawn_props_lays_a_floor_under_what_wants_one() {
    let at = Vec3 { x: 0, y: 0, z: 0 };
    let mut world = World::new();
    let block = props_of(66).unwrap();
    assert_eq!(spawn_props(&mut world, &block, at), 1);
    assert_eq!(
        spawns(&world.drain_commands()),
        vec![
            tile(0, Name::Block, Model::Tile, at),
            scenery(1, Name::Block, Model::TowerSquareMiddleA, Vec3 { x: 0, y: 100, z: 0 }),
        ]
    );
    let bench = props_of(64).unwrap();
    assert_eq!(spawn_props(&mut world, &bench, at), 3);
    let made = spawns(&world.drain_commands());
    assert_eq!(made[0], tile(2, Name::Workbench, Model::Tile, at));
    assert_eq!(made[1].prefab.label, Label::Object(Name::Workbench));
    assert!(world.any_breakable());
}

#[test]
fn spawn_props_lays_a_floor_as_its_own_tile() {
    let at = Vec3 { x: 500, y: 0, z: 500 };
    let mut world = World::new();
    let floor = props_of(37).unwrap();
    assert_eq!(spawn_props(&mut world, &floor, at), 0);
    assert_eq!(
        spawns(&world.drain_commands()),
        vec![tile(0, Name::FloorStraight, Model::TileStraight, at)]
    );
    let wall = props_of(87).unwrap();
    assert_eq!(spawn_props(&mut world, &wall, at), 1);
    assert_eq!(
        spawns(&world.drain_commands()),
        vec![scenery(1, Name::Wall, Model::TowerSquareSampleE, Vec3 { x: 500, y: 100, z: 500 })]
    );
}

#[test]
fn spawn_map_object_places_what_the_code_stands_for() {
    let types = object_types();
    let mut world = World::new();
    assert_eq!(spawn_map_object(&mut world, &types, 87, Vec3 { x: 0, y: 0, z: 0 }), 0);
    assert_eq!(spawn_map_object(&mut world, &types, 66, Vec3 { x: 0, y: 0, z: 0 }), 2);
    assert_eq!(spawn_map_object(&mut world, &types, 64, Vec3 { x: 500, y: 0, z: 0 }), 4);
    let made = spawns(&world.drain_commands());
    assert_eq!(made.len(), 5);
    assert_eq!(
        made[0],
        scenery(0, Name::Wall, Model::TowerSquareSampleE, Vec3 { x: 0, y: 100, z: 0 })
    );
    assert_eq!(made[1], tile(1, Name::Block, Model::Tile, Vec3 { x: 0, y: 0, z: 0 }));
    assert_eq!(made[3], tile(3, Name::Workbench, Model::Tile, Vec3 { x: 500, y: 0, z: 0 }));
    assert_eq!(made[4].prefab.translation, Vec3 { x: 500, y: 200, z: 0 });
    assert!(matches!(world.kind(4), Some(Kind::Breakable(_))));
}

#[test]
fn table_knows_no_other_code_to_place() {
    let types = object_types();
    assert_eq!(types.get(63), None);
    assert_eq!(types.get(0), None);
    assert!(types.get(87).is_some());
}

#[test]
fn map_is_loaded_row_by_row() {
    let mut world = World::new();
    let loaded = create_basic_map(&mut world, b"W@\n C\n");
    assert_eq!(loaded, Ok(4));
    let made = spawns(&world.drain_commands());
    assert_eq!(made.len(), 6);
    assert_eq!(
        made[0],
        scenery(0, Name::Wall, Model::TowerSquareSampleE, Vec3 { x: -6000, y: 100, z: -4000 })
    );
    assert_eq!(made[1], tile(1, Name::Workbench, Model::Tile, Vec3 { x: -5500, y: 0, z: -4000 }));
    assert_eq!(made[2].prefab.translation, Vec3 { x: -5500, y: 200, z: -4000 });
    assert_eq!(made[3], tile(3, Name::Floor, Model::Tile, Vec3 { x: -6000, y: 0, z: -3500 }));
    assert_eq!(made[4], tile(4, Name::Coin, Model::Tile, Vec3 { x: -5500, y: 0, z: -3500 }));
    assert_eq!(made[5].prefab.translation, Vec3 { x: -5500, y: 500, z: -3500 });
    assert_eq!(world.len(), 2);
    assert_eq!(
        world.kind(2),
        Some(Kind::Breakable(Breakable {
            position: Vec3 { x: -5500, y: 200, z: -4000 },
            drops: DropTable::canonical(),
        }))
    );
    assert_eq!(world.kind(5), Some(Kind::Item(InteractiveItem { upgrade: UpgradeType::Speed })));
}

#[test]
fn last_line_needs_no_line_feed() {
    let mut with = World::new();
    let mut without = World::new();
    assert_eq!(create_basic_map(&mut with, b"WW\nW\n"), Ok(3));
    assert_eq!(create_basic_map(&mut without, b"WW\nW"), Ok(3));
    assert_eq!(with.drain_commands(), without.drain_commands());
}

#[test]
fn carriage_return_before_a_line_feed_is_no_cell() {
    let mut unix = World::new();
    let mut dos = World::new();
    assert_eq!(create_basic_map(&mut unix, b"W \n@\n"), Ok(3));
    assert_eq!(create_basic_map(&mut dos, b"W \r\n@\r\n"), Ok(3));
    assert_eq!(unix.drain_commands(), dos.drain_commands());
}

#[test]
fn empty_lines_count_as_rows() {
    let mut world = World::new();
    assert_eq!(create_basic_map(&mut world, b"\n\nW"), Ok(1));
    assert_eq!(
        spawns(&world.drain_commands()),
        vec![scenery(0, Name::Wall, Model::TowerSquareSampleE, Vec3 { x: -6000, y: 100, z: -3000 })]
    );
}

#[test]
fn empty_map_is_loaded_as_nothing() {
    let mut world = World::new();
    assert_eq!(create_basic_map(&mut world, b""), Ok(0));
    assert_eq!(create_basic_map(&mut world, b"\n\r\n"), Ok(0));
    assert_eq!(world.drain_commands(), vec![]);
}

#[test]
fn unknown_character_refuses_the_whole_map() {
    let mut world = World::new();
    let loaded = create_basic_map(&mut world, b"WW\nW?W\n!");
    assert_eq!(loaded, Err(MapError { offset: 4, row: 1, column: 1, code: 63 }));
    assert_eq!(world.drain_commands(), vec![]);
    assert_eq!(world.len(), 0);
    assert_eq!(world.room(), u64::MAX);
}

#[test]
fn lone_carriage_return_is_an_unknown_character() {
    assert_eq!(check_map(&object_types(), b"W\rW"), Err(MapError { offset: 1, row: 0, column: 1, code: 13 }));
    assert_eq!(check_map(&object_types(), b"W\r"), Err(MapError { offset: 1, row: 0, column: 1, code: 13 }));
    assert_eq!(check_map(&object_types(), b"W\r\r\n"), Err(MapError { offset: 1, row: 0, column: 1, code: 13 }));
    assert_eq!(check_map(&object_types(), b"W\r\n"), Ok(1));
}

#[test]
fn bytes_outside_of_ascii_are_unknown() {
    assert_eq!(
        check_map(&object_types(), "W\u{e9}".as_bytes()),
        Err(MapError { offset: 1, row: 0, column: 1, code: 0xc3 })
    );
    assert_eq!(check_map(&object_types(), &[32, 0]), Err(MapError { offset: 1, row: 0, column: 1, code: 0 }));
}

#[test]
fn check_map_counts_the_cells() {
    assert_eq!(check_map(&object_types(), b"W W\r\n@@\n\n#$%BCR"), Ok(11));
}
