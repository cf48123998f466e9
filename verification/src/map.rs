//! The map: what stands where at the start of a level.
//!
//! A map is a text of one line per row of cells, and each byte of a line
//! stands for the object at that cell. Lines end with a line feed, or with
//! a carriage return and a line feed.

use vstd::prelude::*;
use crate::collider::UpgradeType;
use crate::utils::{
    custom_prefab, floor_prefab, object_prefab, spawn_custom, spawn_floor, spawn_object, DropTable,
    Model, Name,
};
use crate::world::{clamp_i64, Entity, Vec3, World, WorldView};

verus! {

/// A block that an explosion destroys and that may leave an upgrade behind.
#[derive(Clone, Copy, Debug, PartialEq, Eq, Structural)]
pub struct Breakable {
    pub position: Vec3,
    pub drops: DropTable,
}

/// A placement of its own for an object: its scale, its rotation about the
/// vertical axis in thousandths of a radian, and what is added to the
/// position of its map cell.
#[derive(Clone, Copy, Debug, PartialEq, Eq, Structural)]
pub struct CustomProps {
    pub scale: Vec3,
    pub rotation: i64,
    pub sum_translation: Vec3,
}

/// What a character of the map stands for.
#[derive(Clone, Copy, Debug, PartialEq, Eq, Structural)]
pub struct ObjectProps {
    pub name: Name,
    pub add_floor: bool,
    pub path: Model,
    pub is_floor: bool,
    pub upgrade: UpgradeType,
    pub animated_rotation: bool,
    pub breakable: bool,
    pub custom: Option<CustomProps>,
}

/// A map that cannot be loaded: the byte `code` at `offset`, which is
/// column `column` of row `row`, stands for no object.
#[derive(Clone, Copy, Debug, PartialEq, Eq, Structural)]
pub struct MapError {
    pub offset: usize,
    pub row: usize,
    pub column: usize,
    pub code: u8,
}

/// A table from character codes to what they stand for, kept in the
/// engine's hash map.
#[verifier::external_body]
pub struct ObjectTypes {
    table: bevy::utils::HashMap<i32, ObjectProps>,
}

/// What a table holds: the codes in it, each with what it stands for.
pub uninterp spec fn table_contents(types: ObjectTypes) -> Map<i32, ObjectProps>;

impl View for ObjectTypes {
    type V = Map<i32, ObjectProps>;

    open spec fn view(&self) -> Map<i32, ObjectProps> {
        table_contents(*self)
    }
}

/// Makes a table with `HashMap::default`. Trusted: the new map holds
/// nothing.
#[verifier::external_body]
fn table_new() -> (types: ObjectTypes)
    ensures
        forall|char_key: i32| !table_contents(types).contains_key(char_key),
{
    ObjectTypes { table: bevy::utils::HashMap::default() }
}

/// Puts an entry into a table with `HashMap::insert`. Trusted: afterwards
/// the code stands for `props`, whether or not it stood for something
/// before, and every other code stands for what it did.
#[verifier::external_body]
fn table_insert(types: &mut ObjectTypes, char_key: i32, props: ObjectProps)
    ensures
        table_contents(*final(types)) == table_contents(*old(types)).insert(char_key, props),
{
    types.table.insert(char_key, props);
}

/// Looks a code up in a table with `HashMap::get`. Trusted: the result is
/// what the table holds for the code, and `None` if it holds nothing for
/// it.
#[verifier::external_body]
fn table_get(types: &ObjectTypes, char_key: i32) -> (props: Option<ObjectProps>)
    ensures
        props == (if table_contents(*types).contains_key(char_key) {
            Some(table_contents(*types)[char_key])
        } else {
            None
        }),
{
    types.table.get(&char_key).copied()
}

/// The byte that ends a line.
pub const LINE_FEED: u8 = 10;

/// The byte that may stand before the end of a line.
pub const CARRIAGE_RETURN: u8 = 13;

/// Thousandths of a unit from one cell to the next.
pub const CELL_STEP: i64 = 500;

/// How far left of the origin the first column lies, in thousandths.
pub const MAP_LEFT: i64 = 6000;

/// How far behind the origin the first row lies, in thousandths.
pub const MAP_BACK: i64 = 4000;

/// An object that is neither pickup nor breakable and has no placement of
/// its own.
pub open spec fn plain_props(name: Name, path: Model, add_floor: bool, is_floor: bool) -> ObjectProps {
    ObjectProps {
        name,
        add_floor,
        path,
        is_floor,
        upgrade: UpgradeType::Nothing,
        animated_rotation: false,
        breakable: false,
        custom: None,
    }
}

/// The coin: a pickup for speed that floats and turns over a floor tile.
pub open spec fn coin_props() -> ObjectProps {
    ObjectProps {
        name: Name::Coin,
        add_floor: true,
        path: Model::SpeedUp,
        is_floor: false,
        upgrade: UpgradeType::Speed,
        animated_rotation: true,
        breakable: true,
        custom: Some(
            CustomProps {
                scale: Vec3 { x: 100, y: 300, z: 200 },
                rotation: 0,
                sum_translation: Vec3 { x: 0, y: 500, z: 0 },
            },
        ),
    }
}

/// The workbench: the breakable of the game, standing on a floor tile.
pub open spec fn workbench_props() -> ObjectProps {
    ObjectProps {
        name: Name::Workbench,
        add_floor: true,
        path: Model::Workbench,
        is_floor: false,
        upgrade: UpgradeType::Nothing,
        animated_rotation: false,
        breakable: true,
        custom: Some(
            CustomProps {
                scale: Vec3 { x: 500, y: 500, z: 600 },
                rotation: 0,
                sum_translation: Vec3 { x: 0, y: 200, z: 0 },
            },
        ),
    }
}

/// What the character with the code `char_key` stands for: a blank is
/// floor, `W` a wall, `B` a block, `C` a coin, `R` a rounded wall, `#` and
/// `$` towers, `%` straight floor and `@` a workbench. Any other code
/// stands for nothing.
pub open spec fn object_props(char_key: int) -> Option<ObjectProps> {
    if char_key == 32 {
        Some(plain_props(Name::Floor, Model::Tile, false, true))
    } else if char_key == 87 {
        Some(plain_props(Name::Wall, Model::TowerSquareSampleE, false, false))
    } else if char_key == 66 {
        Some(plain_props(Name::Block, Model::TowerSquareMiddleA, true, false))
    } else if char_key == 67 {
        Some(coin_props())
    } else if char_key == 82 {
        Some(plain_props(Name::RoundedWall, Model::TowerSquareSampleE, true, false))
    } else if char_key == 35 {
        Some(plain_props(Name::TowerA, Model::TowerSquareSampleA, false, false))
    } else if char_key == 36 {
        Some(plain_props(Name::TowerC, Model::TowerSquareSampleE, false, false))
    } else if char_key == 37 {
        Some(plain_props(Name::FloorStraight, Model::TileStraight, false, true))
    } else if char_key == 64 {
        Some(workbench_props())
    } else {
        None
    }
}

/// The table of the game: every code that [`object_props`] knows, with
/// what it stands for.
pub open spec fn game_table() -> Map<i32, ObjectProps> {
    Map::new(
        |char_key: i32| object_props(char_key as int) is Some,
        |char_key: i32| object_props(char_key as int)->Some_0,
    )
}

/// Where the cell in the given column and row lies: half a unit from cell
/// to cell, with the first cell six units left of and four units behind
/// the origin.
pub open spec fn cell_translation(column: int, row: int) -> Vec3 {
    Vec3 {
        x: clamp_i64(column * CELL_STEP - MAP_LEFT),
        y: 0,
        z: clamp_i64(row * CELL_STEP - MAP_BACK),
    }
}

/// Whether the byte at `i` ends its line.
pub open spec fn ends_line(text: Seq<u8>, i: int) -> bool {
    0 <= i < text.len() && text[i] == LINE_FEED
}

/// Whether the byte at `i` stands for a cell: it is neither a line feed
/// nor a carriage return right before one.
pub open spec fn is_cell(text: Seq<u8>, i: int) -> bool {
    &&& 0 <= i < text.len()
    &&& text[i] != LINE_FEED
    &&& !(text[i] == CARRIAGE_RETURN && ends_line(text, i + 1))
}

/// The row and the column that the byte at `i` falls in: the row is the
/// number of line feeds before it and the column the number of cells
/// before it in its line.
pub open spec fn cursor(text: Seq<u8>, i: int) -> (int, int)
    decreases i,
{
    if i <= 0 {
        (0, 0)
    } else {
        let (row, column) = cursor(text, i - 1);
        if ends_line(text, i - 1) {
            (row + 1, 0)
        } else if is_cell(text, i - 1) {
            (row, column + 1)
        } else {
            (row, column)
        }
    }
}

/// How many of the first `i` bytes stand for a cell.
pub open spec fn cells_before(text: Seq<u8>, i: int) -> int
    decreases i,
{
    if i <= 0 {
        0
    } else {
        cells_before(text, i - 1) + (if is_cell(text, i - 1) {
            1int
        } else {
            0int
        })
    }
}

/// Whether the byte at `i` is a cell that stands for nothing in `table`.
pub open spec fn is_unknown_at(table: Map<i32, ObjectProps>, text: Seq<u8>, i: int) -> bool {
    is_cell(text, i) && !table.contains_key(text[i] as i32)
}

impl WorldView {
    /// The world after the object that `props` describes was put on the
    /// map at `translation`. An object that wants a floor gets the plain
    /// tile under it and is then placed by its own placement, if it has
    /// one, and the common way if not. A floor is laid as a tile of its
    /// own model. Anything else is placed the common way.
    pub open spec fn map_object_placed(self, props: ObjectProps, translation: Vec3) -> WorldView {
        if props.add_floor {
            let floored = self.placed(floor_prefab(props, translation, true));
            match props.custom {
                Some(custom) => floored.placed(custom_prefab(props, custom, translation)),
                None => floored.placed(object_prefab(props, translation)),
            }
        } else if props.is_floor {
            self.placed(floor_prefab(props, translation, false))
        } else {
            self.placed(object_prefab(props, translation))
        }
    }

    /// The world after the cells among the first `i` bytes of the map
    /// were put on it, in the order of the text, each as what its byte
    /// stands for in `table`.
    pub open spec fn map_created(self, table: Map<i32, ObjectProps>, text: Seq<u8>, i: int) -> WorldView
        decreases i,
    {
        if i <= 0 {
            self
        } else {
            let before = self.map_created(table, text, i - 1);
            if is_cell(text, i - 1) {
                before.map_object_placed(
                    table[text[i - 1] as i32],
                    cell_translation(cursor(text, i - 1).1, cursor(text, i - 1).0),
                )
            } else {
                before
            }
        }
    }
}

/// Builds [`plain_props`].
fn plain(name: Name, path: Model, add_floor: bool, is_floor: bool) -> (props: ObjectProps)
    ensures
        props == plain_props(name, path, add_floor, is_floor),
{
    ObjectProps {
        name,
        add_floor,
        path,
        is_floor,
        upgrade: UpgradeType::Nothing,
        animated_rotation: false,
        breakable: false,
        custom: None,
    }
}

impl ObjectTypes {
    /// What the character with the code `char_key` stands for in this
    /// table, if anything.
    pub fn get(&self, char_key: i32) -> (props: Option<ObjectProps>)
        ensures
            props.is_some() <==> self@.contains_key(char_key),
            props matches Some(found) ==> found == self@[char_key],
    {
        table_get(self, char_key)
    }
}

/// Builds the table of the game.
pub fn object_types() -> (types: ObjectTypes)
    ensures
        types@ == game_table(),
{
    let mut types = table_new();
    table_insert(&mut types, 32, plain(Name::Floor, Model::Tile, false, true));
    table_insert(&mut types, 87, plain(Name::Wall, Model::TowerSquareSampleE, false, false));
    table_insert(&mut types, 66, plain(Name::Block, Model::TowerSquareMiddleA, true, false));
    table_insert(
        &mut types,
        67,
        ObjectProps {
            name: Name::Coin,
            add_floor: true,
            path: Model::SpeedUp,
            is_floor: false,
            upgrade: UpgradeType::Speed,
            animated_rotation: true,
            breakable: true,
            custom: Some(
                CustomProps {
                    scale: Vec3 { x: 100, y: 300, z: 200 },
                    rotation: 0,
                    sum_translation: Vec3 { x: 0, y: 500, z: 0 },
                },
            ),
        },
    );
    table_insert(&mut types, 82, plain(Name::RoundedWall, Model::TowerSquareSampleE, true, false));
    table_insert(&mut types, 35, plain(Name::TowerA, Model::TowerSquareSampleA, false, false));
    table_insert(&mut types, 36, plain(Name::TowerC, Model::TowerSquareSampleE, false, false));
    table_insert(&mut types, 37, plain(Name::FloorStraight, Model::TileStraight, false, true));
    table_insert(
        &mut types,
        64,
        ObjectProps {
            name: Name::Workbench,
            add_floor: true,
            path: Model::Workbench,
            is_floor: false,
            upgrade: UpgradeType::Nothing,
            animated_rotation: false,
            breakable: true,
            custom: Some(
                CustomProps {
                    scale: Vec3 { x: 500, y: 500, z: 600 },
                    rotation: 0,
                    sum_translation: Vec3 { x: 0, y: 200, z: 0 },
                },
            ),
        },
    );
    assert(types@ =~= game_table());
    types
}

/// One coordinate of a cell: `index` cells from where the map begins,
/// `origin` thousandths before the origin.
fn cell_coordinate(index: usize, origin: i64) -> (at: i64)
    requires
        0 <= origin <= 1_000_000,
    ensures
        at == clamp_i64(index * CELL_STEP - origin),
{
    assert(index <= 0xffff_ffff_ffff_ffff);
    let wide: i128 = (index as i128) * 500 - (origin as i128);
    if wide > i64::MAX as i128 {
        i64::MAX
    } else {
        wide as i64
    }
}

/// Where the cell in the given column and row lies.
pub fn cell_position(column: usize, row: usize) -> (at: Vec3)
    ensures
        at == cell_translation(column as int, row as int),
{
    Vec3 { x: cell_coordinate(column, MAP_LEFT), y: 0, z: cell_coordinate(row, MAP_BACK) }
}

/// Puts the object that `object_props` describes on the map at
/// `translation` and returns its handle; a floor tile laid under it gets
/// the handle before.
pub fn spawn_props(world: &mut World, object_props: &ObjectProps, translation: Vec3) -> (id: Entity)
    requires
        old(world).wf(),
        old(world)@.has_room(2),
    ensures
        final(world).wf(),
        final(world)@ == old(world)@.map_object_placed(*object_props, translation),
        old(world)@.next_entity < final(world)@.next_entity <= old(world)@.next_entity + 2,
        id == final(world)@.next_entity - 1,
{
    if object_props.add_floor {
        spawn_floor(world, object_props, translation, true);
        if object_props.custom.is_some() {
            return spawn_custom(world, object_props, translation);
        }
        return spawn_object(world, object_props, translation);
    }
    if object_props.is_floor {
        return spawn_floor(world, object_props, translation, false);
    }
    spawn_object(world, object_props, translation)
}

/// Puts the object that the character with the code `char_key` stands for
/// in the table on the map at `translation` and returns its handle. The
/// table has to know the code.
pub fn spawn_map_object(
    world: &mut World,
    _object_types: &ObjectTypes,
    char_key: i32,
    translation: Vec3,
) -> (id: Entity)
    requires
        old(world).wf(),
        old(world)@.has_room(2),
        _object_types@.contains_key(char_key),
    ensures
        final(world).wf(),
        final(world)@ == old(world)@.map_object_placed(_object_types@[char_key], translation),
        old(world)@.next_entity < final(world)@.next_entity <= old(world)@.next_entity + 2,
        id == final(world)@.next_entity - 1,
{
    match _object_types.get(char_key) {
        Some(object_props) => spawn_props(world, &object_props, translation),
        None => vstd::pervasive::unreached(),
    }
}

/// Looks for the first cell of the map that stands for nothing in the
/// table, and counts the cells if there is none.
pub fn check_map(object_types: &ObjectTypes, text: &[u8]) -> (checked: Result<usize, MapError>)
    ensures
        match checked {
            Ok(cells) => {
                &&& forall|i: int| !is_unknown_at(object_types@, text@, i)
                &&& cells == cells_before(text@, text@.len() as int)
            },
            Err(error) => {
                &&& is_unknown_at(object_types@, text@, error.offset as int)
                &&& forall|i: int| 0 <= i < error.offset ==> !is_unknown_at(object_types@, text@, i)
                &&& error.row == cursor(text@, error.offset as int).0
                &&& error.column == cursor(text@, error.offset as int).1
                &&& error.code == text@[error.offset as int]
            },
        },
{
    let mut row: usize = 0;
    let mut column: usize = 0;
    let mut cells: usize = 0;
    let mut i: usize = 0;
    while i < text.len()
        invariant
            i <= text@.len(),
            (row as int, column as int) == cursor(text@, i as int),
            cells == cells_before(text@, i as int),
            row <= i,
            column <= i,
            cells <= i,
            forall|k: int| 0 <= k < i ==> !is_unknown_at(object_types@, text@, k),
        decreases text@.len() - i,
    {
        let code = text[i];
        if code == LINE_FEED {
            row = row + 1;
            column = 0;
        } else if code == CARRIAGE_RETURN && i + 1 < text.len() && text[i + 1] == LINE_FEED {
        } else {
            if object_types.get(code as i32).is_none() {
                return Err(MapError { offset: i, row, column, code });
            }
            column = column + 1;
            cells = cells + 1;
        }
        i = i + 1;
    }
    Ok(cells)
}

/// Loads a map by the table of the game: puts the object of every cell on
/// it, row by row, and returns the number of cells. A map with a cell that
/// stands for nothing is refused as a whole, with the first such cell, and
/// changes nothing.
pub fn create_basic_map(world: &mut World, text: &[u8]) -> (loaded: Result<usize, MapError>)
    requires
        old(world).wf(),
        old(world)@.has_room(2 * (text@.len() as int)),
    ensures
        final(world).wf(),
        match loaded {
            Ok(cells) => {
                &&& forall|i: int| !is_unknown_at(game_table(), text@, i)
                &&& cells == cells_before(text@, text@.len() as int)
                &&& final(world)@ == old(world)@.map_created(
                    game_table(),
                    text@,
                    text@.len() as int,
                )
            },
            Err(error) => {
                &&& is_unknown_at(game_table(), text@, error.offset as int)
                &&& forall|i: int| 0 <= i < error.offset ==> !is_unknown_at(game_table(), text@, i)
                &&& error.row == cursor(text@, error.offset as int).0
                &&& error.column == cursor(text@, error.offset as int).1
                &&& error.code == text@[error.offset as int]
                &&& final(world)@ == old(world)@
            },
        },
{
    let object_types = object_types();
    let cells = match check_map(&object_types, text) {
        Ok(cells) => cells,
        Err(error) => {
            return Err(error);
        },
    };
    let ghost start = world@;
    let mut row: usize = 0;
    let mut column: usize = 0;
    let mut i: usize = 0;
    while i < text.len()
        invariant
            i <= text@.len(),
            (row as int, column as int) == cursor(text@, i as int),
            row <= i,
            column <= i,
            world.wf(),
            object_types@ == game_table(),
            start.has_room(2 * (text@.len() as int)),
            world@.next_entity <= start.next_entity + 2 * i,
            world@ == start.map_created(game_table(), text@, i as int),
            forall|k: int| !is_unknown_at(game_table(), text@, k),
        decreases text@.len() - i,
    {
        let code = text[i];
        if code == LINE_FEED {
            row = row + 1;
            column = 0;
        } else if code == CARRIAGE_RETURN && i + 1 < text.len() && text[i + 1] == LINE_FEED {
        } else {
            assert(is_cell(text@, i as int));
            assert(!is_unknown_at(game_table(), text@, i as int));
            spawn_map_object(world, &object_types, code as i32, cell_position(column, row));
            column = column + 1;
        }
        i = i + 1;
    }
    Ok(cells)
}

} // verus!
