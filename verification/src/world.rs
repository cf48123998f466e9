//! The entity table: every object the simulation tracks, under the handle
//! the host knows it by.

use vstd::prelude::*;
use crate::audio::Sound;
use crate::bomb::Bomb;
use crate::collider::InteractiveItem;
use crate::logic::Flag;
use crate::map::Breakable;
use crate::player::Player;
use crate::state::{GameState, Level};
use crate::utils::{Prefab, Spawn};

verus! {

/// The handle of a game object. The world hands out each handle once.
pub type Entity = u64;

/// Three coordinates in thousandths of a world unit.
#[derive(Clone, Copy, Debug, PartialEq, Eq, Structural)]
pub struct Vec3 {
    pub x: i64,
    pub y: i64,
    pub z: i64,
}

/// What an object is, with the data the rules read. An object has exactly
/// one kind.
#[derive(Clone, Copy, Debug, PartialEq, Eq, Structural)]
pub enum Kind {
    Player(Player),
    Bomb(Bomb),
    Breakable(Breakable),
    Item(InteractiveItem),
    Flag(Flag),
}

/// One row of the entity table.
#[derive(Clone, Copy, Debug, PartialEq, Eq, Structural)]
pub struct Object {
    pub id: Entity,
    pub kind: Kind,
}

/// What the simulation asks the host to do.
#[derive(Clone, Copy, Debug, PartialEq, Eq, Structural)]
pub enum Command {
    /// Create the visible object described, under the handle given in it.
    Spawn(Spawn),
    /// Remove the object and everything attached to it.
    Despawn(Entity),
    /// Switch on the hit region of this bomb.
    ActivateCollider(Entity),
    /// Play a sound on its channel.
    PlaySound(Sound),
}

/// The simulation's state: the entity table, the next free handle, the
/// screen, the level, and the commands that wait for the host.
pub struct World {
    objects: Vec<Object>,
    next_entity: u64,
    state: GameState,
    level: Level,
    commands: Vec<Command>,
}

/// The whole number `v` brought into the range of `i64`.
pub open spec fn clamp_i64(v: int) -> i64 {
    if v < i64::MIN {
        i64::MIN
    } else if v > i64::MAX {
        i64::MAX
    } else {
        v as i64
    }
}

/// `a + b`, brought into the range of `i64`.
pub fn add_capped(a: i64, b: i64) -> (sum: i64)
    ensures
        sum == clamp_i64(a + b),
{
    match a.checked_add(b) {
        Some(sum) => sum,
        None => if b > 0 {
            i64::MAX
        } else {
            i64::MIN
        },
    }
}

impl Vec3 {
    /// The point moved by `by`, each coordinate brought into the range of
    /// `i64`.
    pub open spec fn moved(self, by: Vec3) -> Vec3 {
        Vec3 {
            x: clamp_i64(self.x + by.x),
            y: clamp_i64(self.y + by.y),
            z: clamp_i64(self.z + by.z),
        }
    }

    /// Computes [`Vec3::moved`].
    pub fn offset(&self, by: Vec3) -> (point: Vec3)
        ensures
            point == self.moved(by),
    {
        Vec3 {
            x: add_capped(self.x, by.x),
            y: add_capped(self.y, by.y),
            z: add_capped(self.z, by.z),
        }
    }
}

/// The mathematical content of a [`World`].
#[verifier::ext_equal]
pub struct WorldView {
    pub objects: Seq<Object>,
    pub next_entity: u64,
    pub state: GameState,
    pub level: Level,
    pub commands: Seq<Command>,
}

/// Whether row `i` of the table holds the object `id`.
pub open spec fn row_holds(objects: Seq<Object>, id: Entity, i: int) -> bool {
    0 <= i < objects.len() && objects[i].id == id
}

/// Whether the table holds the object `id`.
pub open spec fn table_has(objects: Seq<Object>, id: Entity) -> bool {
    exists|i: int| row_holds(objects, id, i)
}

/// The row of the object `id`, if the table holds it.
pub open spec fn row_of(objects: Seq<Object>, id: Entity) -> int {
    choose|i: int| row_holds(objects, id, i)
}

/// Whether handles rise strictly along the table.
pub open spec fn rising(objects: Seq<Object>) -> bool {
    forall|i: int, j: int| 0 <= i < j < objects.len() ==> objects[i].id < objects[j].id
}

/// In a table with rising handles the row of an object is the only row
/// with its handle.
pub proof fn lemma_row_unique(objects: Seq<Object>, id: Entity, i: int)
    requires
        rising(objects),
        row_holds(objects, id, i),
    ensures
        table_has(objects, id),
        row_of(objects, id) == i,
{
    let j = row_of(objects, id);
    assert(row_holds(objects, id, j));
    if j < i {
        assert(objects[j].id < objects[i].id);
    } else if i < j {
        assert(objects[i].id < objects[j].id);
    }
}

/// Whether row `i` of the table holds a player.
pub open spec fn player_row(objects: Seq<Object>, i: int) -> bool {
    0 <= i < objects.len() && objects[i].kind is Player
}

/// Whether row `i` of the table holds a player and no other row does.
pub open spec fn sole_player_row(objects: Seq<Object>, i: int) -> bool {
    player_row(objects, i) && forall|j: int| player_row(objects, j) ==> j == i
}

/// Whether row `i` of the table holds a breakable.
pub open spec fn breakable_row(objects: Seq<Object>, i: int) -> bool {
    0 <= i < objects.len() && objects[i].kind is Breakable
}

/// Whether row `i` of the table holds a flag.
pub open spec fn flag_row(objects: Seq<Object>, i: int) -> bool {
    0 <= i < objects.len() && objects[i].kind is Flag
}

/// Whether row `i` of the table holds a bomb whose fuse still burns.
pub open spec fn live_bomb_row(objects: Seq<Object>, i: int) -> bool {
    &&& 0 <= i < objects.len()
    &&& objects[i].kind matches Kind::Bomb(bomb)
    &&& bomb.is_live()
}

impl WorldView {
    /// Handles rise along the table and lie below the next free handle, so
    /// no handle occurs twice and none is ever handed out again.
    pub open spec fn wf(self) -> bool {
        &&& rising(self.objects)
        &&& forall|i: int|
            0 <= i < self.objects.len() ==> (#[trigger] self.objects[i]).id < self.next_entity
    }

    /// Whether `n` more handles can be handed out.
    pub open spec fn has_room(self, n: int) -> bool {
        self.next_entity + n <= u64::MAX
    }

    /// Whether row `i` holds the object `id`.
    pub open spec fn holds_at(self, id: Entity, i: int) -> bool {
        row_holds(self.objects, id, i)
    }

    /// Whether the table holds the object `id`.
    pub open spec fn has(self, id: Entity) -> bool {
        table_has(self.objects, id)
    }

    /// The row of the object `id`, if the table holds it.
    pub open spec fn index_of(self, id: Entity) -> int {
        row_of(self.objects, id)
    }

    /// The kind of the object `id`, if the table holds it.
    pub open spec fn kind_of(self, id: Entity) -> Option<Kind> {
        if self.has(id) {
            Some(self.objects[self.index_of(id)].kind)
        } else {
            None
        }
    }

    /// The world after a new object of `kind` got the next free handle.
    pub open spec fn spawned(self, kind: Kind) -> WorldView {
        WorldView {
            objects: self.objects.push(Object { id: self.next_entity, kind }),
            next_entity: (self.next_entity + 1) as u64,
            ..self
        }
    }

    /// The world after the next free handle was given to something the
    /// table does not track.
    pub open spec fn reserved(self) -> WorldView {
        WorldView { next_entity: (self.next_entity + 1) as u64, ..self }
    }

    /// The world without the object `id`. Removing an absent object
    /// changes nothing.
    pub open spec fn despawned(self, id: Entity) -> WorldView {
        if self.has(id) {
            WorldView { objects: self.objects.remove(self.index_of(id)), ..self }
        } else {
            self
        }
    }

    /// The world in which the object `id` has the data `kind`. Updating an
    /// absent object changes nothing.
    pub open spec fn with_kind(self, id: Entity, kind: Kind) -> WorldView {
        if self.has(id) {
            WorldView {
                objects: self.objects.update(self.index_of(id), Object { id, kind }),
                ..self
            }
        } else {
            self
        }
    }

    /// The world with one more command waiting for the host.
    pub open spec fn emitted(self, command: Command) -> WorldView {
        WorldView { commands: self.commands.push(command), ..self }
    }

    /// The world after the host has taken the waiting commands.
    pub open spec fn drained(self) -> WorldView {
        WorldView { commands: Seq::empty(), ..self }
    }

    /// The world after the object that `prefab` describes got the next free
    /// handle: the host is told to create it, and the table tracks it if
    /// the description names a kind.
    pub open spec fn placed(self, prefab: Prefab) -> WorldView {
        let tracked_world = match prefab.kind {
            Some(kind) => self.spawned(kind),
            None => self.reserved(),
        };
        tracked_world.emitted(Command::Spawn(Spawn { entity: self.next_entity, prefab }))
    }

    /// The world after every object was cleared away: the table is empty
    /// and the host is told to remove each object, in the table's order.
    pub open spec fn cleared_out(self) -> WorldView {
        WorldView {
            objects: Seq::empty(),
            commands: self.commands + self.objects.map_values(
                |row: Object| Command::Despawn(row.id),
            ),
            ..self
        }
    }

    /// The world on another screen.
    pub open spec fn with_state(self, state: GameState) -> WorldView {
        WorldView { state, ..self }
    }

    /// The world on another level.
    pub open spec fn with_level(self, level: Level) -> WorldView {
        WorldView { level, ..self }
    }

    /// Whether row `i` holds a player.
    pub open spec fn is_player_at(self, i: int) -> bool {
        player_row(self.objects, i)
    }

    /// Whether row `i` holds a player and no other row does.
    pub open spec fn is_sole_player_at(self, i: int) -> bool {
        sole_player_row(self.objects, i)
    }

    /// Whether the table holds exactly one player.
    pub open spec fn has_sole_player(self) -> bool {
        exists|i: int| sole_player_row(self.objects, i)
    }

    /// The row of the only player.
    pub open spec fn sole_player_index(self) -> int {
        choose|i: int| sole_player_row(self.objects, i)
    }

    /// The handle of the only player, if there is exactly one.
    pub open spec fn sole_player_id(self) -> Option<Entity> {
        if self.has_sole_player() {
            Some(self.objects[self.sole_player_index()].id)
        } else {
            None
        }
    }

    /// The only player's stats, if there is exactly one player.
    pub open spec fn sole_player(self) -> Option<Player> {
        if self.has_sole_player() {
            Some(self.objects[self.sole_player_index()].kind->Player_0)
        } else {
            None
        }
    }

    /// Whether row `i` holds a breakable.
    pub open spec fn is_breakable_at(self, i: int) -> bool {
        breakable_row(self.objects, i)
    }

    /// Whether any breakable is left.
    pub open spec fn has_breakable(self) -> bool {
        exists|i: int| breakable_row(self.objects, i)
    }

    /// Whether row `i` holds a flag.
    pub open spec fn is_flag_at(self, i: int) -> bool {
        flag_row(self.objects, i)
    }

    /// Whether a flag stands.
    pub open spec fn has_flag(self) -> bool {
        exists|i: int| flag_row(self.objects, i)
    }

    /// Whether row `i` holds a bomb whose fuse still burns.
    pub open spec fn is_live_bomb_at(self, i: int) -> bool {
        live_bomb_row(self.objects, i)
    }

    /// Whether any bomb's fuse still burns.
    pub open spec fn has_live_bomb(self) -> bool {
        exists|i: int| live_bomb_row(self.objects, i)
    }

    /// Whether `id` is a bomb whose hit region is on.
    pub open spec fn is_primed_bomb(self, id: Entity) -> bool {
        self.kind_of(id) matches Some(Kind::Bomb(bomb)) && bomb.armed_for_collision
    }

    /// Whether the simulation runs.
    pub open spec fn is_playing(self) -> bool {
        self.state == GameState::Gameplay
    }
}

/// In a well-formed world the row of an object is the only row with its
/// handle.
pub proof fn lemma_index_unique(w: WorldView, id: Entity, i: int)
    requires
        w.wf(),
        w.holds_at(id, i),
    ensures
        w.has(id),
        w.index_of(id) == i,
{
    lemma_row_unique(w.objects, id, i);
}

/// The handle a well-formed world hands out next is not in its table.
pub proof fn lemma_next_is_fresh(w: WorldView)
    requires
        w.wf(),
    ensures
        !w.has(w.next_entity),
{
    if w.has(w.next_entity) {
        let i = w.index_of(w.next_entity);
        assert(w.holds_at(w.next_entity, i));
        assert(w.objects[i].id < w.next_entity);
    }
}

/// Removing an object keeps a world well-formed, and the object is gone.
pub proof fn lemma_despawn_keeps_wf(w: WorldView, id: Entity)
    requires
        w.wf(),
    ensures
        w.despawned(id).wf(),
        !w.despawned(id).has(id),
{
    if w.has(id) {
        let k = w.index_of(id);
        assert(w.holds_at(id, k));
        let d = w.despawned(id);
        assert forall|i: int, j: int| 0 <= i < j < d.objects.len() implies d.objects[i].id
            < d.objects[j].id by {
            let i0 = if i < k { i } else { i + 1 };
            let j0 = if j < k { j } else { j + 1 };
            assert(d.objects[i] == w.objects[i0]);
            assert(d.objects[j] == w.objects[j0]);
        }
        assert forall|i: int| 0 <= i < d.objects.len() implies (#[trigger] d.objects[i]).id
            < d.next_entity by {
            let i0 = if i < k { i } else { i + 1 };
            assert(d.objects[i] == w.objects[i0]);
        }
        if d.has(id) {
            let i = d.index_of(id);
            assert(d.holds_at(id, i));
            let i0 = if i < k { i } else { i + 1 };
            assert(d.objects[i] == w.objects[i0]);
            assert(w.holds_at(id, i0));
            lemma_index_unique(w, id, i0);
        }
    }
}

/// Adding an object, handing out a handle and giving an object new data
/// keep a world well-formed.
pub proof fn lemma_changes_keep_wf(w: WorldView, id: Entity, kind: Kind)
    requires
        w.wf(),
    ensures
        w.has_room(1) ==> w.spawned(kind).wf(),
        w.has_room(1) ==> w.reserved().wf(),
        w.with_kind(id, kind).wf(),
{
    if w.has(id) {
        let u = w.with_kind(id, kind);
        assert forall|i: int, j: int| 0 <= i < j < u.objects.len() implies u.objects[i].id
            < u.objects[j].id by {
            assert(u.objects[i].id == w.objects[i].id);
            assert(u.objects[j].id == w.objects[j].id);
        }
        assert forall|i: int| 0 <= i < u.objects.len() implies (#[trigger] u.objects[i]).id
            < u.next_entity by {
            assert(u.objects[i].id == w.objects[i].id);
        }
    }
    if w.has_room(1) {
        let s = w.spawned(kind);
        assert forall|i: int, j: int| 0 <= i < j < s.objects.len() implies s.objects[i].id
            < s.objects[j].id by {
            assert(s.objects[i] == w.objects[i]);
            if j < w.objects.len() {
                assert(s.objects[j] == w.objects[j]);
            }
        }
        assert forall|i: int| 0 <= i < s.objects.len() implies (#[trigger] s.objects[i]).id
            < s.next_entity by {
            if i < w.objects.len() {
                assert(s.objects[i] == w.objects[i]);
            }
        }
    }
}

/// What removing the object `gone` does to the others: every other object
/// stays, with its data, and nothing else changes.
pub proof fn lemma_despawn_keeps_others(w: WorldView, gone: Entity, id: Entity)
    requires
        w.wf(),
    ensures
        w.despawned(gone).wf(),
        w.despawned(gone).has(id) <==> w.has(id) && id != gone,
        id != gone ==> w.despawned(gone).kind_of(id) == w.kind_of(id),
        w.despawned(gone).next_entity == w.next_entity,
        w.despawned(gone).state == w.state,
        w.despawned(gone).level == w.level,
        w.despawned(gone).commands == w.commands,
{
    let d = w.despawned(gone);
    lemma_despawn_keeps_wf(w, gone);
    if w.has(gone) {
        let k = w.index_of(gone);
        assert(w.holds_at(gone, k));
        if d.has(id) {
            let i = d.index_of(id);
            assert(d.holds_at(id, i));
            let i0 = if i < k { i } else { i + 1 };
            assert(d.objects[i] == w.objects[i0]);
            assert(w.holds_at(id, i0));
            lemma_index_unique(w, id, i0);
        }
        if w.has(id) && id != gone {
            let i0 = w.index_of(id);
            assert(w.holds_at(id, i0));
            let i = if i0 < k { i0 } else { i0 - 1 };
            assert(d.objects[i] == w.objects[i0]);
            assert(d.holds_at(id, i));
            lemma_index_unique(d, id, i);
        }
    }
}

/// What adding an object does to the others: the new object has the
/// handle that was next and the data it was given, and every other object
/// stays, with its data.
pub proof fn lemma_spawn_keeps_others(w: WorldView, kind: Kind, id: Entity)
    requires
        w.wf(),
        w.has_room(1),
    ensures
        w.spawned(kind).has(id) <==> w.has(id) || id == w.next_entity,
        w.spawned(kind).kind_of(w.next_entity) == Some(kind),
        id != w.next_entity ==> w.spawned(kind).kind_of(id) == w.kind_of(id),
        w.reserved().has(id) <==> w.has(id),
        w.reserved().kind_of(id) == w.kind_of(id),
{
    let s = w.spawned(kind);
    let n = w.objects.len() as int;
    lemma_changes_keep_wf(w, id, kind);
    lemma_next_is_fresh(w);
    assert(s.holds_at(w.next_entity, n));
    lemma_index_unique(s, w.next_entity, n);
    if s.has(id) && id != w.next_entity {
        let i = s.index_of(id);
        assert(s.holds_at(id, i));
        assert(s.objects[i] == w.objects[i]);
        assert(w.holds_at(id, i));
        lemma_index_unique(w, id, i);
    }
    if w.has(id) {
        let i = w.index_of(id);
        assert(w.holds_at(id, i));
        assert(s.objects[i] == w.objects[i]);
        assert(s.holds_at(id, i));
        lemma_index_unique(s, id, i);
    }
    let r = w.reserved();
    if r.has(id) {
        let i = r.index_of(id);
        assert(r.holds_at(id, i));
        assert(w.holds_at(id, i));
        lemma_index_unique(w, id, i);
    }
    if w.has(id) {
        let i = w.index_of(id);
        assert(w.holds_at(id, i));
        assert(r.holds_at(id, i));
    }
}

/// What new data for the object `changed` does to the table: the same
/// objects are there, `changed` has the new data if it is there, and
/// every other object keeps its own.
pub proof fn lemma_replace_keeps_others(w: WorldView, changed: Entity, kind: Kind, id: Entity)
    requires
        w.wf(),
    ensures
        w.with_kind(changed, kind).has(id) <==> w.has(id),
        w.has(changed) ==> w.with_kind(changed, kind).kind_of(changed) == Some(kind),
        id != changed ==> w.with_kind(changed, kind).kind_of(id) == w.kind_of(id),
{
    let u = w.with_kind(changed, kind);
    lemma_changes_keep_wf(w, changed, kind);
    if w.has(changed) {
        let k = w.index_of(changed);
        assert(w.holds_at(changed, k));
        assert(u.holds_at(changed, k));
        lemma_index_unique(u, changed, k);
        if u.has(id) {
            let i = u.index_of(id);
            assert(u.holds_at(id, i));
            assert(u.objects[i].id == w.objects[i].id);
            assert(w.holds_at(id, i));
            lemma_index_unique(w, id, i);
        }
        if w.has(id) {
            let i = w.index_of(id);
            assert(w.holds_at(id, i));
            assert(u.objects[i].id == w.objects[i].id);
            assert(u.holds_at(id, i));
            lemma_index_unique(u, id, i);
        }
    }
}

/// What a change of the table that touches no player's row does to the
/// only player: removing an object that is no player, adding one that is
/// no player, and handing out a handle all leave the same player alone in
/// the table, with the same data.
pub proof fn lemma_others_leave_the_player(w: WorldView, gone: Entity, kind: Kind)
    requires
        w.wf(),
    ensures
        !(w.kind_of(gone) matches Some(Kind::Player(_))) ==> {
            &&& w.despawned(gone).has_sole_player() == w.has_sole_player()
            &&& w.despawned(gone).sole_player_id() == w.sole_player_id()
            &&& w.despawned(gone).sole_player() == w.sole_player()
        },
        w.has_room(1) && !(kind is Player) ==> {
            &&& w.spawned(kind).has_sole_player() == w.has_sole_player()
            &&& w.spawned(kind).sole_player_id() == w.sole_player_id()
            &&& w.spawned(kind).sole_player() == w.sole_player()
        },
{
    if !(w.kind_of(gone) matches Some(Kind::Player(_))) && w.has(gone) {
        let d = w.despawned(gone);
        let k = w.index_of(gone);
        assert(w.holds_at(gone, k));
        assert(!player_row(w.objects, k));
        assert forall|j: int| player_row(d.objects, j) <==> player_row(
            w.objects,
            if j < k {
                j
            } else {
                j + 1
            },
        ) by {
            if 0 <= j < d.objects.len() {
                assert(d.objects[j] == w.objects[if j < k {
                    j
                } else {
                    j + 1
                }]);
            }
        }
        if w.has_sole_player() {
            let i = w.sole_player_index();
            assert(sole_player_row(w.objects, i));
            let i1 = if i < k {
                i
            } else {
                i - 1
            };
            assert(d.objects[i1] == w.objects[i]);
            assert(player_row(d.objects, i1));
            assert forall|j: int| player_row(d.objects, j) implies j == i1 by {
                let j0 = if j < k {
                    j
                } else {
                    j + 1
                };
                assert(player_row(w.objects, j0));
            }
            assert(sole_player_row(d.objects, i1));
            let c = d.sole_player_index();
            assert(sole_player_row(d.objects, c));
        }
        if d.has_sole_player() {
            let i1 = d.sole_player_index();
            assert(sole_player_row(d.objects, i1));
            let i = if i1 < k {
                i1
            } else {
                i1 + 1
            };
            assert(player_row(w.objects, i));
            assert forall|j: int| player_row(w.objects, j) implies j == i by {
                let j1 = if j < k {
                    j
                } else {
                    j - 1
                };
                assert(j != k);
                assert(d.objects[j1] == w.objects[j]);
                assert(player_row(d.objects, j1));
            }
            assert(sole_player_row(w.objects, i));
            let c = w.sole_player_index();
            assert(sole_player_row(w.objects, c));
        }
    }
    if w.has_room(1) && !(kind is Player) {
        let s = w.spawned(kind);
        let n = w.objects.len() as int;
        assert(!player_row(s.objects, n));
        assert forall|j: int| player_row(s.objects, j) <==> player_row(w.objects, j) by {
            if 0 <= j < n {
                assert(s.objects[j] == w.objects[j]);
            }
        }
        if w.has_sole_player() {
            let i = w.sole_player_index();
            assert(sole_player_row(w.objects, i));
            assert(s.objects[i] == w.objects[i]);
            assert(sole_player_row(s.objects, i));
            let c = s.sole_player_index();
            assert(sole_player_row(s.objects, c));
        }
        if s.has_sole_player() {
            let i = s.sole_player_index();
            assert(sole_player_row(s.objects, i));
            assert(player_row(w.objects, i));
            assert(s.objects[i] == w.objects[i]);
            assert(sole_player_row(w.objects, i));
            let c = w.sole_player_index();
            assert(sole_player_row(w.objects, c));
        }
    }
}

/// What new data for the only player does to the table: the same player
/// is alone in it, with the new data.
pub proof fn lemma_player_gets_new_data(w: WorldView, player: Player)
    requires
        w.wf(),
        w.has_sole_player(),
    ensures
        w.with_kind(w.sole_player_id()->Some_0, Kind::Player(player)).has_sole_player(),
        w.with_kind(w.sole_player_id()->Some_0, Kind::Player(player)).sole_player_id()
            == w.sole_player_id(),
        w.with_kind(w.sole_player_id()->Some_0, Kind::Player(player)).sole_player() == Some(
            player,
        ),
{
    let i = w.sole_player_index();
    assert(sole_player_row(w.objects, i));
    let id = w.objects[i].id;
    assert(w.holds_at(id, i));
    lemma_index_unique(w, id, i);
    let u = w.with_kind(id, Kind::Player(player));
    assert forall|j: int| player_row(u.objects, j) <==> player_row(w.objects, j) by {
        if 0 <= j < w.objects.len() && j != i {
            assert(u.objects[j] == w.objects[j]);
        }
    }
    assert(sole_player_row(u.objects, i));
    let c = u.sole_player_index();
    assert(sole_player_row(u.objects, c));
}

impl View for World {
    type V = WorldView;

    closed spec fn view(&self) -> WorldView {
        WorldView {
            objects: self.objects@,
            next_entity: self.next_entity,
            state: self.state,
            level: self.level,
            commands: self.commands@,
        }
    }
}

impl World {
    /// Whether the world is well-formed. Every world this crate hands out
    /// is, and every operation keeps it so.
    pub open spec fn wf(&self) -> bool {
        self@.wf()
    }

    /// An empty world on the menu screen of the first level.
    pub fn new() -> (world: World)
        ensures
            world.wf(),
            world@.objects.len() == 0,
            world@.next_entity == 0,
            world@.state == GameState::Menu,
            world@.level == Level::Level1,
            world@.commands.len() == 0,
    {
        World {
            objects: Vec::new(),
            next_entity: 0,
            state: GameState::Menu,
            level: Level::Level1,
            commands: Vec::new(),
        }
    }

    /// Adds a command for the host.
    pub fn emit(&mut self, command: Command)
        ensures
            final(self)@ == old(self)@.emitted(command),
            old(self).wf() ==> final(self).wf(),
    {
        self.commands.push(command);
    }

    /// Hands the waiting commands to the host, oldest first.
    pub fn drain_commands(&mut self) -> (commands: Vec<Command>)
        ensures
            commands@ == old(self)@.commands,
            final(self)@ == old(self)@.drained(),
            old(self).wf() ==> final(self).wf(),
    {
        let mut commands: Vec<Command> = Vec::new();
        core::mem::swap(&mut self.commands, &mut commands);
        commands
    }

    /// Gives the described object the next free handle, tells the host to
    /// create it and tracks it if the description names a kind.
    pub fn place(&mut self, prefab: Prefab) -> (id: Entity)
        requires
            old(self).wf(),
            old(self)@.has_room(1),
        ensures
            final(self).wf(),
            final(self)@ == old(self)@.placed(prefab),
            id == old(self)@.next_entity,
    {
        let id = match prefab.kind {
            Some(kind) => self.spawn(kind),
            None => self.reserve(),
        };
        self.emit(Command::Spawn(Spawn { entity: id, prefab }));
        id
    }

    /// The screen the game is on.
    pub fn state(&self) -> (state: GameState)
        ensures
            state == self@.state,
    {
        self.state
    }

    /// The level being played.
    pub fn level(&self) -> (level: Level)
        ensures
            level == self@.level,
    {
        self.level
    }

    /// Puts the game on another screen.
    pub fn set_state(&mut self, state: GameState)
        ensures
            final(self)@ == old(self)@.with_state(state),
            old(self).wf() ==> final(self).wf(),
    {
        self.state = state;
    }

    /// Puts the game on another level.
    pub fn set_level(&mut self, level: Level)
        ensures
            final(self)@ == old(self)@.with_level(level),
            old(self).wf() ==> final(self).wf(),
    {
        self.level = level;
    }

    /// How many objects the table holds.
    pub fn len(&self) -> (n: usize)
        ensures
            n == self@.objects.len(),
    {
        self.objects.len()
    }

    /// The object in row `i`.
    pub fn get(&self, i: usize) -> (object: Object)
        requires
            i < self@.objects.len(),
        ensures
            object == self@.objects[i as int],
    {
        self.objects[i]
    }

    /// How many handles are still free.
    pub fn room(&self) -> (n: u64)
        ensures
            n == u64::MAX - self@.next_entity,
            forall|k: int| self@.has_room(k) <==> k <= n,
    {
        u64::MAX - self.next_entity
    }

    /// The row of the object `id`, if the table holds it.
    pub fn find(&self, id: Entity) -> (row: Option<usize>)
        requires
            self.wf(),
        ensures
            row.is_some() <==> self@.has(id),
            row matches Some(i) ==> row_holds(self@.objects, id, i as int) && self@.index_of(id) == i,
    {
        let mut i: usize = 0;
        while i < self.objects.len()
            invariant
                self.wf(),
                i <= self.objects.len(),
                forall|k: int| 0 <= k < i ==> !row_holds(self@.objects, id, k),
            decreases self.objects.len() - i,
        {
            if self.objects[i].id == id {
                proof {
                    lemma_index_unique(self@, id, i as int);
                }
                return Some(i);
            }
            i = i + 1;
        }
        None
    }

    /// The data of the object `id`, if the table holds it.
    pub fn kind(&self, id: Entity) -> (kind: Option<Kind>)
        requires
            self.wf(),
        ensures
            kind == self@.kind_of(id),
    {
        match self.find(id) {
            Some(i) => Some(self.objects[i].kind),
            None => None,
        }
    }

    /// Adds an object of `kind` under the next free handle and returns the
    /// handle.
    pub fn spawn(&mut self, kind: Kind) -> (id: Entity)
        requires
            old(self).wf(),
            old(self)@.has_room(1),
        ensures
            final(self).wf(),
            final(self)@ == old(self)@.spawned(kind),
            id == old(self)@.next_entity,
            !old(self)@.has(id),
            final(self)@.kind_of(id) == Some(kind),
            forall|other: Entity|
                other != id ==> #[trigger] final(self)@.kind_of(other) == old(self)@.kind_of(other),
    {
        let id = self.next_entity;
        self.objects.push(Object { id, kind });
        self.next_entity = id + 1;
        proof {
            lemma_changes_keep_wf(old(self)@, id, kind);
            lemma_next_is_fresh(old(self)@);
            lemma_spawn_keeps_others(old(self)@, kind, id);
            assert forall|other: Entity| other != id implies #[trigger] self@.kind_of(other) == old(
                self,
            )@.kind_of(other) by {
                lemma_spawn_keeps_others(old(self)@, kind, other);
            }
        }
        id
    }

    /// Hands out the next free handle for something the table does not
    /// track.
    pub fn reserve(&mut self) -> (id: Entity)
        requires
            old(self).wf(),
            old(self)@.has_room(1),
        ensures
            final(self).wf(),
            final(self)@ == old(self)@.reserved(),
            id == old(self)@.next_entity,
    {
        let id = self.next_entity;
        self.next_entity = id + 1;
        id
    }

    /// Removes the object `id` and says whether it was there. Removing an
    /// absent object changes nothing.
    pub fn despawn(&mut self, id: Entity) -> (removed: bool)
        requires
            old(self).wf(),
        ensures
            final(self).wf(),
            final(self)@ == old(self)@.despawned(id),
            removed == old(self)@.has(id),
            !final(self)@.has(id),
            forall|other: Entity|
                other != id ==> #[trigger] final(self)@.kind_of(other) == old(self)@.kind_of(other),
    {
        proof {
            lemma_despawn_keeps_wf(self@, id);
            assert forall|other: Entity| other != id implies #[trigger] self@.despawned(
                id,
            ).kind_of(other) == self@.kind_of(other) by {
                lemma_despawn_keeps_others(self@, id, other);
            }
        }
        match self.find(id) {
            Some(i) => {
                self.objects.remove(i);
                true
            },
            None => false,
        }
    }

    /// Gives the object `id` new data and says whether it was there.
    /// Updating an absent object changes nothing.
    pub fn replace(&mut self, id: Entity, kind: Kind) -> (replaced: bool)
        requires
            old(self).wf(),
        ensures
            final(self).wf(),
            final(self)@ == old(self)@.with_kind(id, kind),
            replaced == old(self)@.has(id),
            replaced ==> final(self)@.kind_of(id) == Some(kind),
            forall|other: Entity|
                other != id ==> #[trigger] final(self)@.kind_of(other) == old(self)@.kind_of(other),
    {
        proof {
            lemma_changes_keep_wf(self@, id, kind);
            lemma_replace_keeps_others(self@, id, kind, id);
            assert forall|other: Entity| other != id implies #[trigger] self@.with_kind(
                id,
                kind,
            ).kind_of(other) == self@.kind_of(other) by {
                lemma_replace_keeps_others(self@, id, kind, other);
            }
        }
        match self.find(id) {
            Some(i) => {
                self.objects.set(i, Object { id, kind });
                true
            },
            None => false,
        }
    }

    /// Puts another table in place of the present one.
    pub(crate) fn set_objects(&mut self, objects: Vec<Object>)
        requires
            (WorldView { objects: objects@, ..old(self)@ }).wf(),
        ensures
            final(self).wf(),
            final(self)@ == (WorldView { objects: objects@, ..old(self)@ }),
    {
        self.objects = objects;
    }

    /// Clears every object away, at the end of a level: the table is
    /// emptied and the host is told to remove each object. No handle is
    /// freed for a second use.
    pub fn despawn_all(&mut self)
        requires
            old(self).wf(),
        ensures
            final(self).wf(),
            final(self)@ == old(self)@.cleared_out(),
    {
        let ghost start = self@;
        let n = self.objects.len();
        let mut i: usize = 0;
        while i < n
            invariant
                i <= n,
                n == start.objects.len(),
                self@ == (WorldView {
                    commands: start.commands + start.objects.take(i as int).map_values(
                        |row: Object| Command::Despawn(row.id),
                    ),
                    ..start
                }),
            decreases n - i,
        {
            let id = self.objects[i].id;
            self.commands.push(Command::Despawn(id));
            assert(self@.commands =~= start.commands + start.objects.take(i + 1).map_values(
                |row: Object| Command::Despawn(row.id),
            ));
            i = i + 1;
        }
        assert(start.objects.take(n as int) == start.objects);
        self.objects = Vec::new();
    }

    /// The row of the only player, if the table holds exactly one.
    pub fn single_player(&self) -> (row: Option<usize>)
        ensures
            row.is_some() <==> self@.has_sole_player(),
            row matches Some(i) ==> sole_player_row(self@.objects, i as int)
                && self@.sole_player_index() == i,
    {
        let mut found: Option<usize> = None;
        let mut many: bool = false;
        let mut i: usize = 0;
        while i < self.objects.len()
            invariant
                i <= self.objects.len(),
                found matches Some(f) ==> f < i && player_row(self@.objects, f as int),
                found is None ==> !many && forall|k: int| 0 <= k < i ==> !player_row(self@.objects, k),
                !many && found.is_some() ==> forall|k: int|
                    0 <= k < i && player_row(self@.objects, k) ==> k == found.unwrap(),
                many ==> exists|a: int, b: int|
                    a != b && player_row(self@.objects, a) && player_row(self@.objects, b),
            decreases self.objects.len() - i,
        {
            match self.objects[i].kind {
                Kind::Player(_) => {
                    match found {
                        Some(f) => {
                            assert(player_row(self@.objects, f as int) && player_row(self@.objects, i as int));
                            many = true;
                        },
                        None => {
                            found = Some(i);
                        },
                    }
                },
                _ => {},
            }
            i = i + 1;
        }
        if many {
            proof {
                let (a, b) = choose|a: int, b: int|
                    a != b && player_row(self@.objects, a) && player_row(self@.objects, b);
                assert forall|k: int| !sole_player_row(self@.objects, k) by {
                    if sole_player_row(self@.objects, k) {
                        assert(a == k && b == k);
                    }
                }
            }
            None
        } else {
            match found {
                Some(f) => {
                    assert(sole_player_row(self@.objects, f as int));
                    proof {
                        let c = self@.sole_player_index();
                        assert(sole_player_row(self@.objects, c));
                    }
                    Some(f)
                },
                None => {
                    assert forall|k: int| !sole_player_row(self@.objects, k) by {}
                    None
                },
            }
        }
    }

    /// The only player's handle and stats, if the table holds exactly one
    /// player.
    pub fn player(&self) -> (found: Option<(Entity, Player)>)
        ensures
            found.is_some() <==> self@.has_sole_player(),
            found matches Some(pair) ==> Some(pair.0) == self@.sole_player_id()
                && Some(pair.1) == self@.sole_player(),
    {
        match self.single_player() {
            Some(i) => {
                let object = self.objects[i];
                match object.kind {
                    Kind::Player(player) => Some((object.id, player)),
                    _ => None,
                }
            },
            None => None,
        }
    }

    /// Whether any breakable is left.
    pub fn any_breakable(&self) -> (any: bool)
        ensures
            any == self@.has_breakable(),
    {
        let mut i: usize = 0;
        while i < self.objects.len()
            invariant
                i <= self.objects.len(),
                forall|k: int| 0 <= k < i ==> !breakable_row(self@.objects, k),
            decreases self.objects.len() - i,
        {
            match self.objects[i].kind {
                Kind::Breakable(_) => {
                    assert(breakable_row(self@.objects, i as int));
                    return true;
                },
                _ => {},
            }
            i = i + 1;
        }
        false
    }

    /// Whether a flag stands.
    pub fn any_flag(&self) -> (any: bool)
        ensures
            any == self@.has_flag(),
    {
        let mut i: usize = 0;
        while i < self.objects.len()
            invariant
                i <= self.objects.len(),
                forall|k: int| 0 <= k < i ==> !flag_row(self@.objects, k),
            decreases self.objects.len() - i,
        {
            match self.objects[i].kind {
                Kind::Flag(_) => {
                    assert(flag_row(self@.objects, i as int));
                    return true;
                },
                _ => {},
            }
            i = i + 1;
        }
        false
    }

    /// Whether any bomb's fuse still burns.
    pub fn any_live_bomb(&self) -> (any: bool)
        ensures
            any == self@.has_live_bomb(),
    {
        let mut i: usize = 0;
        while i < self.objects.len()
            invariant
                i <= self.objects.len(),
                forall|k: int| 0 <= k < i ==> !live_bomb_row(self@.objects, k),
            decreases self.objects.len() - i,
        {
            match self.objects[i].kind {
                Kind::Bomb(bomb) => {
                    if !bomb.explode_timer.finished() {
                        assert(live_bomb_row(self@.objects, i as int));
                        return true;
                    }
                },
                _ => {},
            }
            i = i + 1;
        }
        false
    }
}

} // verus!
