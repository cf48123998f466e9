//! Descriptions of the objects the host has to create, and the drop roll.

use vstd::prelude::*;
use rand::Rng;
use crate::bomb::{Bomb, HitRegion};
use crate::collider::{InteractiveItem, UpgradeType};
use crate::constants::DROP_ROLL_SIDES;
use crate::logic::Flag;
use crate::map::{Breakable, CustomProps, ObjectProps};
use crate::player::Player;
use crate::world::{Entity, Kind, Vec3, World, WorldView};

verus! {

/// The 3D models of the game.
#[derive(Clone, Copy, Debug, PartialEq, Eq, Hash, Structural)]
pub enum Model {
    Bomb,
    BombUp,
    FireUp,
    Flag,
    Player,
    SpeedUp,
    Tile,
    TileStraight,
    TowerSquareMiddleA,
    TowerSquareSampleA,
    TowerSquareSampleE,
    Workbench,
}

/// The names objects go by in the host's scene.
#[derive(Clone, Copy, Debug, PartialEq, Eq, Hash, Structural)]
pub enum Name {
    Block,
    Bomb,
    BombUp,
    Coin,
    EndFlag,
    FireUp,
    Floor,
    FloorStraight,
    Player,
    RoundedWall,
    SpeedUp,
    TowerA,
    TowerC,
    Wall,
    Workbench,
}

/// The full name of a created object: its own, or that of the floor tile
/// laid under the object of that name.
#[derive(Clone, Copy, Debug, PartialEq, Eq, Hash, Structural)]
pub enum Label {
    Object(Name),
    Floor(Name),
}

/// The shape of a collider. A cuboid is given by half of its extent along
/// each axis.
#[derive(Clone, Copy, Debug, PartialEq, Eq, Structural)]
pub enum Shape {
    Cuboid(Vec3),
    Cross(HitRegion),
}

/// How the physics engine moves a body.
#[derive(Clone, Copy, Debug, PartialEq, Eq, Hash, Structural)]
pub enum Body {
    Dynamic,
    Fixed,
    KinematicPositionBased,
}

/// Everything the host needs to create a visible object, but for its
/// handle. `kind` is what the entity table tracks the object as; scenery
/// has none. `rotation` is about the vertical axis, in thousandths of a
/// radian.
#[derive(Clone, Copy, Debug, PartialEq, Eq, Structural)]
pub struct Prefab {
    pub label: Label,
    pub model: Model,
    pub translation: Vec3,
    pub scale: Vec3,
    pub rotation: i64,
    pub collider: Shape,
    pub body: Option<Body>,
    pub sensor: bool,
    pub collision_events: bool,
    pub animated_rotation: bool,
    pub kind: Option<Kind>,
}

/// A described object under its handle.
#[derive(Clone, Copy, Debug, PartialEq, Eq, Structural)]
pub struct Spawn {
    pub entity: Entity,
    pub prefab: Prefab,
}

/// The chances of a destroyed breakable to leave an upgrade behind, as
/// bounds on a roll below one hundred: a roll below `fire_end` drops a
/// `Fire`, one below `bomb_end` a `Bomb`, one below `speed_end` a `Speed`,
/// and any other roll drops nothing.
#[derive(Clone, Copy, Debug, PartialEq, Eq, Structural)]
pub struct DropTable {
    pub fire_end: u32,
    pub bomb_end: u32,
    pub speed_end: u32,
}

/// The scale of an object that has no scale of its own.
pub open spec fn default_object_scale() -> Vec3 {
    Vec3 { x: 570, y: 1000, z: 570 }
}

/// The same length along each axis.
pub open spec fn cube(side: i64) -> Vec3 {
    Vec3 { x: side, y: side, z: side }
}

/// A step straight up.
pub open spec fn lift(height: i64) -> Vec3 {
    Vec3 { x: 0, y: height, z: 0 }
}

/// Where the level's exit flag stands.
pub open spec fn flag_position() -> Vec3 {
    Vec3 { x: 100, y: 200, z: (-100) as i64 }
}

/// Where the player starts.
pub open spec fn player_start() -> Vec3 {
    Vec3 { x: 0, y: 400, z: 200 }
}

/// A bomb as the host has to create it: a tenth of a unit above the place
/// it was laid at, half size, with the cross of its explosion as a sensor
/// that does not yet report overlaps.
pub open spec fn bomb_prefab(position: Vec3, bomb: Bomb) -> Prefab {
    Prefab {
        label: Label::Object(Name::Bomb),
        model: Model::Bomb,
        translation: position.moved(lift(100)),
        scale: cube(500),
        rotation: 0,
        collider: Shape::Cross(bomb.region()),
        body: None,
        sensor: true,
        collision_events: false,
        animated_rotation: false,
        kind: Some(Kind::Bomb(bomb)),
    }
}

/// The exit flag as the host has to create it: a fixed sensor that reports
/// overlaps.
pub open spec fn flag_prefab() -> Prefab {
    Prefab {
        label: Label::Object(Name::EndFlag),
        model: Model::Flag,
        translation: flag_position(),
        scale: default_object_scale(),
        rotation: 0,
        collider: Shape::Cuboid(cube(300)),
        body: Some(Body::Fixed),
        sensor: true,
        collision_events: true,
        animated_rotation: false,
        kind: Some(Kind::Flag(Flag { position: flag_position() })),
    }
}

/// The player as the host has to create it: a body that the physics
/// engine moves.
pub open spec fn player_prefab(player: Player) -> Prefab {
    Prefab {
        label: Label::Object(Name::Player),
        model: Model::Player,
        translation: player_start(),
        scale: default_object_scale(),
        rotation: 0,
        collider: Shape::Cuboid(Vec3 { x: 250, y: 100, z: 400 }),
        body: Some(Body::Dynamic),
        sensor: false,
        collision_events: false,
        animated_rotation: false,
        kind: Some(Kind::Player(player)),
    }
}

/// The model and the name of the pickup for an upgrade.
pub open spec fn upgrade_look(upgrade: UpgradeType) -> (Model, Name) {
    match upgrade {
        UpgradeType::Fire => (Model::FireUp, Name::FireUp),
        UpgradeType::Bomb => (Model::BombUp, Name::BombUp),
        _ => (Model::SpeedUp, Name::SpeedUp),
    }
}

/// What the pickup for an upgrade stands for when a destroyed breakable
/// leaves it behind: it lies where the breakable stood, turns on the
/// spot, and is a pickup, not a breakable.
pub open spec fn upgrade_props(upgrade: UpgradeType) -> ObjectProps {
    ObjectProps {
        name: upgrade_look(upgrade).1,
        add_floor: true,
        path: upgrade_look(upgrade).0,
        is_floor: false,
        upgrade,
        animated_rotation: true,
        breakable: false,
        custom: Some(
            CustomProps { scale: Vec3 { x: 200, y: 300, z: 200 }, rotation: 0, sum_translation: lift(0) },
        ),
    }
}

/// An object without a placement of its own, as the host has to create
/// it. A pickup is larger than other objects, floats half a unit up, is a
/// sensor that reports overlaps and grants the upgrade of its description;
/// any other object stands a tenth of a unit up and is solid scenery.
pub open spec fn object_prefab(props: ObjectProps, translation: Vec3) -> Prefab {
    let pickup = props.upgrade != UpgradeType::Nothing;
    Prefab {
        label: Label::Object(props.name),
        model: props.path,
        translation: translation.moved(lift(if pickup { 500 } else { 100 })),
        scale: if pickup {
            default_object_scale().moved(cube(500))
        } else {
            default_object_scale()
        },
        rotation: 0,
        collider: Shape::Cuboid(if pickup { cube(300) } else { cube(400) }),
        body: Some(Body::Fixed),
        sensor: pickup,
        collision_events: pickup,
        animated_rotation: false,
        kind: if pickup {
            Some(Kind::Item(InteractiveItem { upgrade: props.upgrade }))
        } else {
            None
        },
    }
}

/// A floor tile as the host has to create it: the plain tile under an
/// object, or the object's own model where the object is a floor.
pub open spec fn floor_prefab(props: ObjectProps, translation: Vec3, default_floor: bool) -> Prefab {
    Prefab {
        label: Label::Floor(props.name),
        model: if default_floor { Model::Tile } else { props.path },
        translation,
        scale: default_object_scale(),
        rotation: 0,
        collider: Shape::Cuboid(Vec3 { x: 1000, y: 200, z: 1000 }),
        body: Some(Body::Fixed),
        sensor: false,
        collision_events: false,
        animated_rotation: false,
        kind: None,
    }
}

/// An object with the placement `custom`, as the host has to create it.
/// It stands where its cell is, moved by the placement's offset, in the
/// placement's scale and unrotated. With an upgrade it is a pickup: a
/// fixed sensor that reports overlaps. Otherwise it is a breakable with
/// the game's drop table if it is marked so, and scenery if not.
pub open spec fn custom_prefab(props: ObjectProps, custom: CustomProps, translation: Vec3) -> Prefab {
    let pickup = props.upgrade != UpgradeType::Nothing;
    let place = translation.moved(custom.sum_translation);
    Prefab {
        label: Label::Object(props.name),
        model: props.path,
        translation: place,
        scale: custom.scale,
        rotation: 0,
        collider: Shape::Cuboid(if pickup { cube(300) } else { Vec3 { x: 500, y: 500, z: 300 } }),
        body: if pickup {
            Some(Body::Fixed)
        } else if props.breakable {
            Some(Body::KinematicPositionBased)
        } else {
            None
        },
        sensor: pickup,
        collision_events: pickup,
        animated_rotation: props.animated_rotation,
        kind: if pickup {
            Some(Kind::Item(InteractiveItem { upgrade: props.upgrade }))
        } else if props.breakable {
            Some(Kind::Breakable(Breakable { position: place, drops: DropTable::standard() }))
        } else {
            None
        },
    }
}

impl WorldView {
    /// The world after a breakable at `position` was destroyed and the
    /// roll for its drop came out as `roll`: the upgrade that `table`
    /// gives for the roll lies there as a pickup, or nothing does.
    pub open spec fn upgrade_dropped(self, position: Vec3, table: DropTable, roll: u32) -> WorldView {
        let upgrade = table.upgrade_for(roll);
        if upgrade == UpgradeType::Nothing {
            self
        } else {
            self.placed(
                custom_prefab(
                    upgrade_props(upgrade),
                    upgrade_props(upgrade).custom->Some_0,
                    position,
                ),
            )
        }
    }
}

impl Model {
    /// Where the model's scene lies below the asset directory.
    pub fn path(&self) -> (path: &'static str)
        ensures
            path@ == match *self {
                Model::Bomb => "objects/bomb.glb#Scene0"@,
                Model::BombUp => "objects/bombup.glb#Scene0"@,
                Model::FireUp => "objects/fireup.glb#Scene0"@,
                Model::Flag => "objects/flag.glb#Scene0"@,
                Model::Player => "objects/enemy_ufoRedWeapon.glb#Scene0"@,
                Model::SpeedUp => "objects/speedup.glb#Scene0"@,
                Model::Tile => "objects/tile.glb#Scene0"@,
                Model::TileStraight => "objects/tile_straight.glb#Scene0"@,
                Model::TowerSquareMiddleA => "objects/towerSquare_middleA.glb#Scene0"@,
                Model::TowerSquareSampleA => "objects/towerSquare_sampleA.glb#Scene0"@,
                Model::TowerSquareSampleE => "objects/towerSquare_sampleE.glb#Scene0"@,
                Model::Workbench => "objects/workbench.glb#Scene0"@,
            },
    {
        match self {
            Model::Bomb => "objects/bomb.glb#Scene0",
            Model::BombUp => "objects/bombup.glb#Scene0",
            Model::FireUp => "objects/fireup.glb#Scene0",
            Model::Flag => "objects/flag.glb#Scene0",
            Model::Player => "objects/enemy_ufoRedWeapon.glb#Scene0",
            Model::SpeedUp => "objects/speedup.glb#Scene0",
            Model::Tile => "objects/tile.glb#Scene0",
            Model::TileStraight => "objects/tile_straight.glb#Scene0",
            Model::TowerSquareMiddleA => "objects/towerSquare_middleA.glb#Scene0",
            Model::TowerSquareSampleA => "objects/towerSquare_sampleA.glb#Scene0",
            Model::TowerSquareSampleE => "objects/towerSquare_sampleE.glb#Scene0",
            Model::Workbench => "objects/workbench.glb#Scene0",
        }
    }
}

impl Name {
    /// The name as text.
    pub fn text(&self) -> (text: &'static str)
        ensures
            text@ == match *self {
                Name::Block => "Block"@,
                Name::Bomb => "Bomb"@,
                Name::BombUp => "BombUp"@,
                Name::Coin => "Coin"@,
                Name::EndFlag => "EndFlag"@,
                Name::FireUp => "FireUp"@,
                Name::Floor => "Floor"@,
                Name::FloorStraight => "FloorStraight"@,
                Name::Player => "Player"@,
                Name::RoundedWall => "RoundedWall"@,
                Name::SpeedUp => "SpeedUp"@,
                Name::TowerA => "TowerA"@,
                Name::TowerC => "TowerC"@,
                Name::Wall => "Wall"@,
                Name::Workbench => "Workbench"@,
            },
    {
        match self {
            Name::Block => "Block",
            Name::Bomb => "Bomb",
            Name::BombUp => "BombUp",
            Name::Coin => "Coin",
            Name::EndFlag => "EndFlag",
            Name::FireUp => "FireUp",
            Name::Floor => "Floor",
            Name::FloorStraight => "FloorStraight",
            Name::Player => "Player",
            Name::RoundedWall => "RoundedWall",
            Name::SpeedUp => "SpeedUp",
            Name::TowerA => "TowerA",
            Name::TowerC => "TowerC",
            Name::Wall => "Wall",
            Name::Workbench => "Workbench",
        }
    }
}

impl DropTable {
    /// What a roll drops under this table.
    pub open spec fn upgrade_for(self, roll: u32) -> UpgradeType {
        if roll < self.fire_end {
            UpgradeType::Fire
        } else if roll < self.bomb_end {
            UpgradeType::Bomb
        } else if roll < self.speed_end {
            UpgradeType::Speed
        } else {
            UpgradeType::Nothing
        }
    }

    /// The table of the game: rolls 0 to 5 drop a `Fire`, 6 to 15 a `Bomb`,
    /// 16 to 19 a `Speed`, and 20 to 99 nothing.
    pub open spec fn standard() -> DropTable {
        DropTable { fire_end: 6, bomb_end: 16, speed_end: 20 }
    }

    /// The table of the game, [`DropTable::standard`].
    pub fn canonical() -> (table: DropTable)
        ensures
            table == DropTable::standard(),
    {
        DropTable { fire_end: 6, bomb_end: 16, speed_end: 20 }
    }

    /// What a roll drops under this table.
    pub fn upgrade_for_roll(&self, roll: u32) -> (upgrade: UpgradeType)
        ensures
            upgrade == self.upgrade_for(roll),
    {
        if roll < self.fire_end {
            UpgradeType::Fire
        } else if roll < self.bomb_end {
            UpgradeType::Bomb
        } else if roll < self.speed_end {
            UpgradeType::Speed
        } else {
            UpgradeType::Nothing
        }
    }
}

impl Default for DropTable {
    /// The table of the game.
    fn default() -> (table: DropTable)
        ensures
            table == DropTable::standard(),
    {
        DropTable::canonical()
    }
}

impl UpgradeType {
    /// Whether this is an upgrade at all.
    pub fn is_upgrade(&self) -> (granted: bool)
        ensures
            granted == (*self != UpgradeType::Nothing),
    {
        match self {
            UpgradeType::Nothing => false,
            _ => true,
        }
    }
}

/// Builds [`bomb_prefab`].
pub fn describe_bomb(position: Vec3, bomb: Bomb) -> (prefab: Prefab)
    ensures
        prefab == bomb_prefab(position, bomb),
{
    Prefab {
        label: Label::Object(Name::Bomb),
        model: Model::Bomb,
        translation: position.offset(Vec3 { x: 0, y: 100, z: 0 }),
        scale: Vec3 { x: 500, y: 500, z: 500 },
        rotation: 0,
        collider: Shape::Cross(bomb.hit_region()),
        body: None,
        sensor: true,
        collision_events: false,
        animated_rotation: false,
        kind: Some(Kind::Bomb(bomb)),
    }
}

/// Builds [`flag_prefab`].
pub fn describe_flag() -> (prefab: Prefab)
    ensures
        prefab == flag_prefab(),
{
    let position = Vec3 { x: 100, y: 200, z: -100 };
    Prefab {
        label: Label::Object(Name::EndFlag),
        model: Model::Flag,
        translation: position,
        scale: Vec3 { x: 570, y: 1000, z: 570 },
        rotation: 0,
        collider: Shape::Cuboid(Vec3 { x: 300, y: 300, z: 300 }),
        body: Some(Body::Fixed),
        sensor: true,
        collision_events: true,
        animated_rotation: false,
        kind: Some(Kind::Flag(Flag { position })),
    }
}

/// Builds [`player_prefab`].
pub fn describe_player(player: Player) -> (prefab: Prefab)
    ensures
        prefab == player_prefab(player),
{
    Prefab {
        label: Label::Object(Name::Player),
        model: Model::Player,
        translation: Vec3 { x: 0, y: 400, z: 200 },
        scale: Vec3 { x: 570, y: 1000, z: 570 },
        rotation: 0,
        collider: Shape::Cuboid(Vec3 { x: 250, y: 100, z: 400 }),
        body: Some(Body::Dynamic),
        sensor: false,
        collision_events: false,
        animated_rotation: false,
        kind: Some(Kind::Player(player)),
    }
}

/// Builds [`upgrade_props`].
pub fn describe_upgrade(upgrade: UpgradeType) -> (props: ObjectProps)
    ensures
        props == upgrade_props(upgrade),
        props.custom.is_some(),
{
    let (path, name) = match upgrade {
        UpgradeType::Fire => (Model::FireUp, Name::FireUp),
        UpgradeType::Bomb => (Model::BombUp, Name::BombUp),
        _ => (Model::SpeedUp, Name::SpeedUp),
    };
    ObjectProps {
        name,
        add_floor: true,
        path,
        is_floor: false,
        upgrade,
        animated_rotation: true,
        breakable: false,
        custom: Some(
            CustomProps {
                scale: Vec3 { x: 200, y: 300, z: 200 },
                rotation: 0,
                sum_translation: Vec3 { x: 0, y: 0, z: 0 },
            },
        ),
    }
}

/// Has the host create an object without a placement of its own at
/// `translation`, and returns its handle.
pub fn spawn_object(world: &mut World, object_props: &ObjectProps, translation: Vec3) -> (id: Entity)
    requires
        old(world).wf(),
        old(world)@.has_room(1),
    ensures
        final(world).wf(),
        final(world)@ == old(world)@.placed(object_prefab(*object_props, translation)),
        id == old(world)@.next_entity,
{
    let pickup = object_props.upgrade.is_upgrade();
    let prefab = Prefab {
        label: Label::Object(object_props.name),
        model: object_props.path,
        translation: translation.offset(Vec3 { x: 0, y: if pickup { 500 } else { 100 }, z: 0 }),
        scale: if pickup {
            Vec3 { x: 570, y: 1000, z: 570 }.offset(Vec3 { x: 500, y: 500, z: 500 })
        } else {
            Vec3 { x: 570, y: 1000, z: 570 }
        },
        rotation: 0,
        collider: Shape::Cuboid(
            if pickup {
                Vec3 { x: 300, y: 300, z: 300 }
            } else {
                Vec3 { x: 400, y: 400, z: 400 }
            },
        ),
        body: Some(Body::Fixed),
        sensor: pickup,
        collision_events: pickup,
        animated_rotation: false,
        kind: if pickup {
            Some(Kind::Item(InteractiveItem { upgrade: object_props.upgrade }))
        } else {
            None
        },
    };
    world.place(prefab)
}

/// Has the host create a floor tile at `translation`, and returns its
/// handle. With `default_floor` the tile is the plain one; without, it has
/// the model of `object_props`.
pub fn spawn_floor(
    world: &mut World,
    object_props: &ObjectProps,
    translation: Vec3,
    default_floor: bool,
) -> (id: Entity)
    requires
        old(world).wf(),
        old(world)@.has_room(1),
    ensures
        final(world).wf(),
        final(world)@ == old(world)@.placed(floor_prefab(*object_props, translation, default_floor)),
        id == old(world)@.next_entity,
{
    let prefab = Prefab {
        label: Label::Floor(object_props.name),
        model: if default_floor {
            Model::Tile
        } else {
            object_props.path
        },
        translation,
        scale: Vec3 { x: 570, y: 1000, z: 570 },
        rotation: 0,
        collider: Shape::Cuboid(Vec3 { x: 1000, y: 200, z: 1000 }),
        body: Some(Body::Fixed),
        sensor: false,
        collision_events: false,
        animated_rotation: false,
        kind: None,
    };
    world.place(prefab)
}

/// Has the host create an object with a placement of its own at
/// `translation`, tracks it as pickup or breakable where it is one, and
/// returns its handle.
pub fn spawn_custom(world: &mut World, object_props: &ObjectProps, translation: Vec3) -> (id: Entity)
    requires
        old(world).wf(),
        old(world)@.has_room(1),
        object_props.custom.is_some(),
    ensures
        final(world).wf(),
        final(world)@ == old(world)@.placed(
            custom_prefab(*object_props, object_props.custom->Some_0, translation),
        ),
        id == old(world)@.next_entity,
{
    let custom = match object_props.custom {
        Some(custom) => custom,
        None => CustomProps {
            scale: Vec3 { x: 0, y: 0, z: 0 },
            rotation: 0,
            sum_translation: Vec3 { x: 0, y: 0, z: 0 },
        },
    };
    let pickup = object_props.upgrade.is_upgrade();
    let place = translation.offset(custom.sum_translation);
    let prefab = Prefab {
        label: Label::Object(object_props.name),
        model: object_props.path,
        translation: place,
        scale: custom.scale,
        rotation: 0,
        collider: Shape::Cuboid(
            if pickup {
                Vec3 { x: 300, y: 300, z: 300 }
            } else {
                Vec3 { x: 500, y: 500, z: 300 }
            },
        ),
        body: if pickup {
            Some(Body::Fixed)
        } else if object_props.breakable {
            Some(Body::KinematicPositionBased)
        } else {
            None
        },
        sensor: pickup,
        collision_events: pickup,
        animated_rotation: object_props.animated_rotation,
        kind: if pickup {
            Some(Kind::Item(InteractiveItem { upgrade: object_props.upgrade }))
        } else if object_props.breakable {
            Some(Kind::Breakable(Breakable { position: place, drops: DropTable::canonical() }))
        } else {
            None
        },
    };
    world.place(prefab)
}

/// Leaves behind what `table` gives for the drop roll `roll` of a
/// breakable destroyed at `position`, and returns the pickup's handle if
/// there is one.
pub fn drop_upgrade(world: &mut World, position: Vec3, table: DropTable, roll: u32) -> (dropped: Option<Entity>)
    requires
        old(world).wf(),
        old(world)@.has_room(1),
    ensures
        final(world).wf(),
        final(world)@ == old(world)@.upgrade_dropped(position, table, roll),
        dropped.is_some() <==> table.upgrade_for(roll) != UpgradeType::Nothing,
        dropped matches Some(id) ==> id == old(world)@.next_entity,
{
    let upgrade = table.upgrade_for_roll(roll);
    if upgrade.is_upgrade() {
        let props = describe_upgrade(upgrade);
        Some(spawn_custom(world, &props, position))
    } else {
        None
    }
}

/// Rolls for the drop of a breakable destroyed at `translation` and leaves
/// behind what `table` gives for the roll.
pub fn possibly_spawn_upgrade(world: &mut World, translation: Vec3, table: DropTable) -> (roll: u32)
    requires
        old(world).wf(),
        old(world)@.has_room(1),
    ensures
        final(world).wf(),
        roll < DROP_ROLL_SIDES,
        final(world)@ == old(world)@.upgrade_dropped(translation, table, roll),
{
    let roll = random_below(DROP_ROLL_SIDES);
    drop_upgrade(world, translation, table, roll);
    roll
}

/// Draws a whole number below `bound` with `gen_range(0..bound)` on the
/// generator that rand's `thread_rng` hands out. Trusted: `gen_range`
/// returns a value of the half-open range it is given and panics on an
/// empty range, which `bound > 0` rules out. Nothing is claimed about
/// which value comes, nor that the system can seed the generator.
#[verifier::external_body]
pub(crate) fn random_below(bound: u32) -> (roll: u32)
    requires
        bound > 0,
    ensures
        roll < bound,
{
    rand::thread_rng().gen_range(0..bound)
}

} // verus!
