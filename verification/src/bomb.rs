//! The life of a bomb: placed, burning, primed, exploded.

use vstd::prelude::*;
use crate::audio::Sound;
use crate::constants::{BLAST_HALF_THICKNESS, BOMB_EXPLOSION_TIME};
use crate::constants::{BOMB_SPAWN_DELAY, NANOS_PER_MILLI};
use crate::player::{
    fresh_fuse, lemma_bombs_laid_are_paid, lemma_no_bomb_during_cooldown,
    lemma_one_bomb_per_cooldown, time_spent, Player,
};
use crate::timer::Timer;
use crate::utils::{bomb_prefab, describe_bomb};
use crate::world::{
    lemma_changes_keep_wf, lemma_others_leave_the_player, lemma_player_gets_new_data,
    lemma_replace_keeps_others, lemma_row_unique, lemma_spawn_keeps_others, rising, row_holds, row_of, table_has, Command,
    Entity, Kind, Object, Vec3, World, WorldView,
};

verus! {

/// A placed bomb. `explosion_range` is the range its owner had when placing
/// it, in thousandths of a world unit. `armed_for_collision` says that the
/// bomb's hit region has been switched on.
#[derive(Clone, Copy, Debug, PartialEq, Eq, Structural)]
pub struct Bomb {
    pub explode_timer: Timer,
    pub explosion_range: u32,
    pub armed_for_collision: bool,
}

/// Where a bomb stands in its life.
#[derive(Clone, Copy, Debug, PartialEq, Eq, Hash, Structural)]
pub enum BombPhase {
    /// The fuse burns and the hit region is off.
    Armed,
    /// At most a hundredth of the fuse is left: the hit region is on.
    PrimedForExplosion,
    /// The fuse has run out.
    Exploded,
}

/// What one tick did to a bomb.
#[derive(Clone, Copy, Debug, PartialEq, Eq, Structural)]
pub struct FuseStep {
    /// The hit region was switched on in this tick.
    pub activated: bool,
    /// The fuse ran out in this tick.
    pub exploded: bool,
}

/// A box centred on the bomb, given by half of its extent along each axis in
/// thousandths of a world unit.
#[derive(Clone, Copy, Debug, PartialEq, Eq, Structural)]
pub struct Bar {
    pub half_x: u32,
    pub half_y: u32,
    pub half_z: u32,
}

/// The cross an explosion covers: one bar along x and one along z.
#[derive(Clone, Copy, Debug, PartialEq, Eq, Structural)]
pub struct HitRegion {
    pub along_x: Bar,
    pub along_z: Bar,
}

impl Bar {
    /// Whether the point at the given offset from the centre lies in the
    /// box, its faces included.
    pub open spec fn covers(self, dx: int, dy: int, dz: int) -> bool {
        &&& -self.half_x <= dx <= self.half_x
        &&& -self.half_y <= dy <= self.half_y
        &&& -self.half_z <= dz <= self.half_z
    }

    /// Computes [`Bar::covers`].
    pub fn contains(&self, dx: i64, dy: i64, dz: i64) -> (inside: bool)
        ensures
            inside == self.covers(dx as int, dy as int, dz as int),
    {
        let hx: i64 = self.half_x as i64;
        let hy: i64 = self.half_y as i64;
        let hz: i64 = self.half_z as i64;
        -hx <= dx && dx <= hx && -hy <= dy && dy <= hy && -hz <= dz && dz <= hz
    }
}

impl HitRegion {
    /// Whether the point at the given offset from the bomb lies in either
    /// bar.
    pub open spec fn covers(self, dx: int, dy: int, dz: int) -> bool {
        self.along_x.covers(dx, dy, dz) || self.along_z.covers(dx, dy, dz)
    }

    /// Computes [`HitRegion::covers`].
    pub fn contains(&self, dx: i64, dy: i64, dz: i64) -> (inside: bool)
        ensures
            inside == self.covers(dx as int, dy as int, dz as int),
    {
        self.along_x.contains(dx, dy, dz) || self.along_z.contains(dx, dy, dz)
    }
}

impl Bomb {
    /// The phase the fuse puts the bomb in.
    pub open spec fn phase_of(self) -> BombPhase {
        if self.explode_timer.is_finished() {
            BombPhase::Exploded
        } else if self.explode_timer.is_in_final_percent() {
            BombPhase::PrimedForExplosion
        } else {
            BombPhase::Armed
        }
    }

    /// A bomb is live until its fuse has run out.
    pub open spec fn is_live(self) -> bool {
        !self.explode_timer.is_finished()
    }

    /// The bomb after `dt` nanoseconds: the fuse has burnt on, and the hit
    /// region is on once at most a hundredth of the fuse is left.
    pub open spec fn ticked(self, dt: int) -> Bomb {
        let timer = self.explode_timer.ticked(dt);
        Bomb {
            explode_timer: timer,
            explosion_range: self.explosion_range,
            armed_for_collision: self.armed_for_collision || timer.is_in_final_percent(),
        }
    }

    /// What a tick of `dt` nanoseconds reports for this bomb.
    pub open spec fn fuse_step(self, dt: int) -> FuseStep {
        FuseStep {
            activated: !self.armed_for_collision && self.ticked(dt).armed_for_collision,
            exploded: self.is_live() && !self.ticked(dt).is_live(),
        }
    }

    /// The cross this bomb's explosion covers: two bars through the bomb,
    /// each twice the range long and a tenth of a unit thick and high.
    pub open spec fn region(self) -> HitRegion {
        HitRegion {
            along_x: Bar {
                half_x: self.explosion_range,
                half_y: BLAST_HALF_THICKNESS,
                half_z: BLAST_HALF_THICKNESS,
            },
            along_z: Bar {
                half_x: BLAST_HALF_THICKNESS,
                half_y: BLAST_HALF_THICKNESS,
                half_z: self.explosion_range,
            },
        }
    }

    /// The bomb after the ticks `dts`, each given in nanoseconds.
    pub open spec fn ticked_through(self, dts: Seq<int>) -> Bomb
        decreases dts.len(),
    {
        if dts.len() == 0 {
            self
        } else {
            self.ticked_through(dts.drop_last()).ticked(dts.last())
        }
    }

    /// How many of the ticks `dts` report that the bomb exploded.
    pub open spec fn explosions(self, dts: Seq<int>) -> nat
        decreases dts.len(),
    {
        if dts.len() == 0 {
            0
        } else {
            self.explosions(dts.drop_last()) + (if self.ticked_through(
                dts.drop_last(),
            ).fuse_step(dts.last()).exploded {
                1nat
            } else {
                0nat
            })
        }
    }

    /// A bomb that was just placed by a player of the given range.
    pub fn new(explosion_range: u32) -> (bomb: Bomb)
        ensures
            bomb.explode_timer == fresh_fuse(),
            bomb.explosion_range == explosion_range,
            !bomb.armed_for_collision,
            bomb.phase_of() == BombPhase::Armed,
    {
        Bomb {
            explode_timer: Timer::from_secs(BOMB_EXPLOSION_TIME),
            explosion_range,
            armed_for_collision: false,
        }
    }

    /// Where the bomb stands in its life.
    pub fn phase(&self) -> (phase: BombPhase)
        ensures
            phase == self.phase_of(),
    {
        if self.explode_timer.finished() {
            BombPhase::Exploded
        } else if self.explode_timer.in_final_percent() {
            BombPhase::PrimedForExplosion
        } else {
            BombPhase::Armed
        }
    }

    /// Burns the fuse for `dt` nanoseconds and reports what happened.
    pub fn tick(&mut self, dt: i64) -> (step: FuseStep)
        ensures
            *final(self) == old(self).ticked(dt as int),
            step == old(self).fuse_step(dt as int),
    {
        let was_live = !self.explode_timer.finished();
        let was_armed = self.armed_for_collision;
        self.explode_timer.tick(dt);
        if self.explode_timer.in_final_percent() {
            self.armed_for_collision = true;
        }
        FuseStep {
            activated: !was_armed && self.armed_for_collision,
            exploded: was_live && self.explode_timer.finished(),
        }
    }

    /// The cross this bomb's explosion covers.
    pub fn hit_region(&self) -> (region: HitRegion)
        ensures
            region == self.region(),
    {
        HitRegion {
            along_x: Bar {
                half_x: self.explosion_range,
                half_y: BLAST_HALF_THICKNESS,
                half_z: BLAST_HALF_THICKNESS,
            },
            along_z: Bar {
                half_x: BLAST_HALF_THICKNESS,
                half_y: BLAST_HALF_THICKNESS,
                half_z: self.explosion_range,
            },
        }
    }
}

/// The nanoseconds that pass over the ticks `dts`; a negative step counts
/// as zero.
pub open spec fn time_burnt(dts: Seq<int>) -> int
    decreases dts.len(),
{
    if dts.len() == 0 {
        0
    } else {
        time_burnt(dts.drop_last()) + (if dts.last() > 0 {
            dts.last()
        } else {
            0
        })
    }
}

/// A tick on which time passes brings a live bomb strictly closer to its
/// explosion, no tick takes it further away, and a tick reports the
/// explosion exactly when it burns up what was left of the fuse. Once the
/// hit region is on it stays on, and it is on whenever the bomb has
/// exploded; on a bomb whose hit region is on exactly when it is no longer
/// armed, as on every bomb that was laid, that stays so.
pub proof fn lemma_fuse_burns_down(bomb: Bomb, dt: int)
    ensures
        bomb.ticked(dt).explode_timer.time_left() <= bomb.explode_timer.time_left(),
        dt > 0 && bomb.is_live() ==> bomb.ticked(dt).explode_timer.time_left()
            < bomb.explode_timer.time_left(),
        bomb.fuse_step(dt).exploded <==> bomb.is_live() && bomb.explode_timer.time_left() <= dt,
        bomb.fuse_step(dt).exploded <==> bomb.is_live() && !bomb.ticked(dt).is_live(),
        bomb.armed_for_collision ==> bomb.ticked(dt).armed_for_collision,
        !bomb.ticked(dt).is_live() ==> bomb.ticked(dt).armed_for_collision,
        bomb.ticked(dt).phase_of() != BombPhase::Armed ==> bomb.ticked(dt).armed_for_collision,
        (bomb.armed_for_collision <==> bomb.phase_of() != BombPhase::Armed) ==> (bomb.ticked(
            dt,
        ).armed_for_collision <==> bomb.ticked(dt).phase_of() != BombPhase::Armed),
{
}

/// Over any run of ticks a bomb explodes at most once, and it does so
/// exactly if it was live and the ticks burn up what was left of its fuse.
pub proof fn lemma_explodes_once(bomb: Bomb, dts: Seq<int>)
    ensures
        bomb.explosions(dts) <= 1,
        bomb.explosions(dts) == 1 <==> bomb.is_live() && bomb.explode_timer.time_left()
            <= time_burnt(dts),
        bomb.is_live() ==> bomb.ticked_through(dts).explode_timer.time_left() == (if time_burnt(dts)
            >= bomb.explode_timer.time_left() {
            0
        } else {
            bomb.explode_timer.time_left() - time_burnt(dts)
        }),
        !bomb.is_live() ==> !bomb.ticked_through(dts).is_live(),
        time_burnt(dts) >= 0,
    decreases dts.len(),
{
    if dts.len() > 0 {
        lemma_explodes_once(bomb, dts.drop_last());
        lemma_fuse_burns_down(bomb.ticked_through(dts.drop_last()), dts.last());
    }
}

/// What a tick of `dt` nanoseconds leaves of a row of the table: a bomb
/// whose fuse had run out before is cleared away, a live bomb burns on, and
/// anything else stays as it is.
pub open spec fn burnt_row(row: Object, dt: int) -> Option<Object> {
    match row.kind {
        Kind::Bomb(bomb) => if bomb.is_live() {
            Some(Object { id: row.id, kind: Kind::Bomb(bomb.ticked(dt)) })
        } else {
            None
        },
        _ => Some(row),
    }
}

/// What a tick of `dt` nanoseconds tells the host about a row: to switch
/// on the hit region of a bomb that got primed, and to remove a bomb whose
/// fuse ran out in this tick and play its explosion.
pub open spec fn row_commands(row: Object, dt: int) -> Seq<Command> {
    match row.kind {
        Kind::Bomb(bomb) => if bomb.is_live() {
            let step = bomb.fuse_step(dt);
            (if step.activated {
                seq![Command::ActivateCollider(row.id)]
            } else {
                Seq::empty()
            }) + (if step.exploded {
                seq![Command::Despawn(row.id), Command::PlaySound(Sound::BombExplosion)]
            } else {
                Seq::empty()
            })
        } else {
            Seq::empty()
        },
        _ => Seq::empty(),
    }
}

/// [`burnt_row`] for a fixed `dt`.
pub open spec fn burn(dt: int) -> spec_fn(Object) -> Option<Object> {
    |row: Object| burnt_row(row, dt)
}

/// [`row_commands`] for a fixed `dt`.
pub open spec fn report(dt: int) -> spec_fn(Object) -> Seq<Command> {
    |row: Object| row_commands(row, dt)
}

impl WorldView {
    /// Whether a bomb is laid in a tick of `dt` nanoseconds in which the
    /// key is or is not pressed: play runs, there is exactly one player,
    /// the key is pressed, a bomb is left, and the cooldown has run out by
    /// the end of the tick.
    pub open spec fn lays_bomb(self, pressed: bool, dt: int) -> bool {
        &&& self.is_playing()
        &&& self.sole_player() matches Some(player) && player.lays_bomb(pressed, dt)
    }

    /// The world after the player had the chance to lay a bomb at
    /// `position`. Outside of play, or without exactly one player, nothing
    /// happens. Otherwise the player's cooldown runs on by `dt`
    /// nanoseconds; if the key is pressed and the player may place a bomb,
    /// the bomb is created and its sound played.
    pub open spec fn bomb_dropped(self, pressed: bool, dt: int, position: Vec3) -> WorldView {
        if self.is_playing() && self.has_sole_player() {
            let id = self.sole_player_id()->Some_0;
            let player = self.sole_player()->Some_0;
            let moved_on = self.with_kind(id, Kind::Player(player.attempted(pressed, dt)));
            if player.lays_bomb(pressed, dt) {
                moved_on.placed(bomb_prefab(position, player.waited(dt).placed_bomb())).emitted(
                    Command::PlaySound(Sound::BombStart),
                )
            } else {
                moved_on
            }
        } else {
            self
        }
    }

    /// The world after every fuse has burnt for `dt` nanoseconds. Outside
    /// of play nothing happens. Otherwise each row becomes what
    /// [`burnt_row`] leaves of it, and the host is told what
    /// [`row_commands`] says, row by row.
    pub open spec fn bombs_ticked(self, dt: int) -> WorldView {
        if self.is_playing() {
            WorldView {
                objects: self.objects.filter_map(burn(dt)),
                commands: self.commands + self.objects.map_values(report(dt)).flatten(),
                ..self
            }
        } else {
            self
        }
    }
}

impl WorldView {
    /// The world after the ticks `dts`, each given in nanoseconds, in
    /// which nothing happens but the burning of fuses.
    pub open spec fn ticked_through(self, dts: Seq<int>) -> WorldView
        decreases dts.len(),
    {
        if dts.len() == 0 {
            self
        } else {
            self.ticked_through(dts.drop_last()).bombs_ticked(dts.last())
        }
    }
}

/// How often `commands` tell the host to remove the object `id`.
pub open spec fn despawns_of(commands: Seq<Command>, id: Entity) -> nat
    decreases commands.len(),
{
    if commands.len() == 0 {
        0
    } else {
        despawns_of(commands.drop_last(), id) + (if commands.last() == Command::Despawn(id) {
            1nat
        } else {
            0nat
        })
    }
}

/// The removals in two runs of commands add up.
pub proof fn lemma_despawns_add(first: Seq<Command>, second: Seq<Command>, id: Entity)
    ensures
        despawns_of(first + second, id) == despawns_of(first, id) + despawns_of(second, id),
    decreases second.len(),
{
    if second.len() == 0 {
        assert(first + second =~= first);
    } else {
        lemma_despawns_add(first, second.drop_last(), id);
        assert((first + second).drop_last() =~= first + second.drop_last());
        assert((first + second).last() == second.last());
    }
}

/// What a tick tells the host about one row removes the row's own object
/// once if it is a bomb that explodes in the tick, and removes nothing
/// else.
pub proof fn lemma_row_despawns(row: Object, dt: int, id: Entity)
    ensures
        despawns_of(row_commands(row, dt), id) == (if row.id == id && (row.kind matches Kind::Bomb(
            bomb,
        ) && bomb.fuse_step(dt).exploded) {
            1nat
        } else {
            0nat
        }),
{
    let commands = row_commands(row, dt);
    reveal_with_fuel(despawns_of, 4);
    if commands.len() == 1 {
        assert(commands.drop_last().len() == 0);
    } else if commands.len() == 2 {
        assert(commands.drop_last().len() == 1);
        assert(commands.drop_last().drop_last().len() == 0);
        assert(commands.drop_last().last() == commands[0]);
    } else if commands.len() == 3 {
        assert(commands.drop_last().len() == 2);
        assert(commands.drop_last().drop_last().len() == 1);
        assert(commands.drop_last().drop_last().drop_last().len() == 0);
        assert(commands.drop_last().last() == commands[1]);
        assert(commands.drop_last().drop_last().last() == commands[0]);
    }
}

/// What a tick leaves of a table with rising handles: the handles still
/// rise, no handle is new, and each object is there afterwards exactly if
/// [`burnt_row`] leaves it, with the data that it gives.
pub proof fn lemma_burnt_table(objects: Seq<Object>, dt: int, id: Entity)
    requires
        rising(objects),
    ensures
        rising(objects.filter_map(burn(dt))),
        forall|j: int|
            0 <= j < objects.filter_map(burn(dt)).len() ==> objects.len() > 0 && (
            #[trigger] objects.filter_map(burn(dt))[j]).id <= objects[objects.len() - 1].id,
        table_has(objects.filter_map(burn(dt)), id) <==> table_has(objects, id) && burnt_row(
            objects[row_of(objects, id)],
            dt,
        ) is Some,
        table_has(objects.filter_map(burn(dt)), id) ==> burnt_row(
            objects[row_of(objects, id)],
            dt,
        ) == Some(objects.filter_map(burn(dt))[row_of(objects.filter_map(burn(dt)), id)]),
    decreases objects.len(),
{
    let left = objects.filter_map(burn(dt));
    if objects.len() == 0 {
        assert(left.len() == 0);
        assert(!table_has(objects, id)) by {
            if table_has(objects, id) {
                assert(row_holds(objects, id, row_of(objects, id)));
            }
        }
        assert(!table_has(left, id)) by {
            if table_has(left, id) {
                assert(row_holds(left, id, row_of(left, id)));
            }
        }
    } else {
        let before = objects.drop_last();
        let last = objects.last();
        let n = before.len() as int;
        let left_before = before.filter_map(burn(dt));
        assert(rising(before));
        lemma_burnt_table(before, dt, id);
        assert(left =~= match burnt_row(last, dt) {
            Some(row) => left_before + seq![row],
            None => left_before,
        });
        assert forall|j: int| 0 <= j < left_before.len() implies (#[trigger] left_before[j]).id
            < last.id by {
            assert(before[n - 1] == objects[n - 1]);
            assert(objects[n - 1].id < objects[n].id);
        }
        assert forall|j: int| 0 <= j < left.len() implies (#[trigger] left[j]).id <= objects[n].id by {
            if j < left_before.len() {
                assert(left[j] == left_before[j]);
            }
        }
        assert(rising(left)) by {
            assert forall|a: int, b: int| 0 <= a < b < left.len() implies left[a].id
                < left[b].id by {
                if b < left_before.len() {
                    assert(left[a] == left_before[a] && left[b] == left_before[b]);
                } else {
                    assert(left[a] == left_before[a]);
                }
            }
        }
        // how the rows of the shorter table sit in the longer one
        if table_has(before, id) {
            let i = row_of(before, id);
            assert(row_holds(before, id, i));
            assert(before[i] == objects[i]);
            assert(row_holds(objects, id, i));
            lemma_row_unique(objects, id, i);
        }
        if table_has(left_before, id) {
            let j = row_of(left_before, id);
            assert(row_holds(left_before, id, j));
            assert(left[j] == left_before[j]);
            assert(row_holds(left, id, j));
            lemma_row_unique(left, id, j);
        }
        if last.id == id {
            assert(row_holds(objects, id, n));
            lemma_row_unique(objects, id, n);
            assert(!table_has(left_before, id)) by {
                if table_has(left_before, id) {
                    let j = row_of(left_before, id);
                    assert(row_holds(left_before, id, j));
                    assert(left_before[j].id < last.id);
                }
            }
            match burnt_row(last, dt) {
                Some(row) => {
                    let j = left_before.len() as int;
                    assert(left[j] == row);
                    assert(row_holds(left, id, j));
                    lemma_row_unique(left, id, j);
                },
                None => {
                    assert(left == left_before);
                },
            }
        } else {
            if table_has(objects, id) {
                let i = row_of(objects, id);
                assert(row_holds(objects, id, i));
                assert(before[i] == objects[i]);
                assert(row_holds(before, id, i));
                lemma_row_unique(before, id, i);
            }
            if table_has(left, id) {
                let j = row_of(left, id);
                assert(row_holds(left, id, j));
                if j < left_before.len() {
                    assert(left[j] == left_before[j]);
                    assert(row_holds(left_before, id, j));
                    lemma_row_unique(left_before, id, j);
                } else {
                    assert(left[j] == burnt_row(last, dt)->Some_0);
                }
            }
        }
    }
}

/// How often a tick tells the host to remove the object `id`: once if it
/// is a bomb in the table that explodes in the tick, and never otherwise.
pub proof fn lemma_reported_despawns(objects: Seq<Object>, dt: int, id: Entity)
    requires
        rising(objects),
    ensures
        despawns_of(objects.map_values(report(dt)).flatten(), id) == (if table_has(objects, id) && (
        objects[row_of(objects, id)].kind matches Kind::Bomb(bomb) && bomb.fuse_step(
            dt,
        ).exploded) {
            1nat
        } else {
            0nat
        }),
    decreases objects.len(),
{
    if objects.len() == 0 {
        assert(objects.map_values(report(dt)).flatten() =~= Seq::<Command>::empty());
        assert(!table_has(objects, id)) by {
            if table_has(objects, id) {
                assert(row_holds(objects, id, row_of(objects, id)));
            }
        }
    } else {
        let before = objects.drop_last();
        let last = objects.last();
        let n = before.len() as int;
        assert(rising(before));
        lemma_reported_despawns(before, dt, id);
        assert(objects =~= before.push(last));
        before.lemma_push_map_commute(report(dt), last);
        before.map_values(report(dt)).lemma_flatten_push(row_commands(last, dt));
        assert(objects.map_values(report(dt)).flatten() =~= before.map_values(
            report(dt),
        ).flatten() + row_commands(last, dt));
        lemma_despawns_add(before.map_values(report(dt)).flatten(), row_commands(last, dt), id);
        lemma_row_despawns(last, dt, id);
        if last.id == id {
            assert(row_holds(objects, id, n));
            lemma_row_unique(objects, id, n);
            assert(!table_has(before, id)) by {
                if table_has(before, id) {
                    let i = row_of(before, id);
                    assert(row_holds(before, id, i));
                    assert(before[i] == objects[i]);
                    assert(objects[i].id < objects[n].id);
                }
            }
        } else {
            if table_has(before, id) {
                let i = row_of(before, id);
                assert(row_holds(before, id, i));
                assert(before[i] == objects[i]);
                assert(row_holds(objects, id, i));
                lemma_row_unique(objects, id, i);
            }
            if table_has(objects, id) {
                let i = row_of(objects, id);
                assert(row_holds(objects, id, i));
                assert(before[i] == objects[i]);
                assert(row_holds(before, id, i));
                lemma_row_unique(before, id, i);
            }
        }
    }
}

/// What one tick does to one object: a bomb whose fuse had run out before
/// is cleared from the table, a live bomb burns on, anything else is left
/// alone; and the host is told to remove the object exactly if it is a
/// bomb that explodes in this tick.
pub proof fn lemma_tick_by_object(w: WorldView, dt: int, id: Entity)
    requires
        w.wf(),
        w.is_playing(),
    ensures
        w.bombs_ticked(dt).wf(),
        w.bombs_ticked(dt).is_playing(),
        w.bombs_ticked(dt).next_entity == w.next_entity,
        w.bombs_ticked(dt).kind_of(id) == (match w.kind_of(id) {
            Some(Kind::Bomb(bomb)) => if bomb.is_live() {
                Some(Kind::Bomb(bomb.ticked(dt)))
            } else {
                None
            },
            other => other,
        }),
        despawns_of(w.bombs_ticked(dt).commands, id) == despawns_of(w.commands, id) + (
        if w.kind_of(id) matches Some(Kind::Bomb(bomb)) && bomb.fuse_step(dt).exploded {
            1nat
        } else {
            0nat
        }),
{
    let after = w.bombs_ticked(dt);
    lemma_burnt_table(w.objects, dt, id);
    lemma_reported_despawns(w.objects, dt, id);
    lemma_despawns_add(w.commands, w.objects.map_values(report(dt)).flatten(), id);
    assert forall|j: int| 0 <= j < after.objects.len() implies (#[trigger] after.objects[j]).id
        < after.next_entity by {
        let top = w.objects.len() - 1;
        assert(w.objects[top].id < w.next_entity);
    }
    if w.has(id) {
        assert(row_holds(w.objects, id, row_of(w.objects, id)));
    }
}

/// Over any run of ticks the host is told at most once to remove a bomb:
/// in the tick in which its fuse runs out, if the run reaches it. A bomb
/// whose fuse still burns after the run is in the table with what is left
/// of the fuse; one whose fuse has run out stays out of play. Objects that
/// are no bombs are never touched.
pub proof fn lemma_bomb_removed_once(w: WorldView, dts: Seq<int>, id: Entity)
    requires
        w.wf(),
        w.is_playing(),
    ensures
        w.ticked_through(dts).wf(),
        w.ticked_through(dts).is_playing(),
        despawns_of(w.ticked_through(dts).commands, id) - despawns_of(w.commands, id) <= 1,
        match w.kind_of(id) {
            Some(Kind::Bomb(bomb)) => {
                &&& despawns_of(w.ticked_through(dts).commands, id) == despawns_of(w.commands, id)
                    + bomb.explosions(dts)
                &&& bomb.ticked_through(dts).is_live() ==> w.ticked_through(dts).kind_of(id)
                    == Some(Kind::Bomb(bomb.ticked_through(dts)))
                &&& !bomb.ticked_through(dts).is_live() ==> !(w.ticked_through(dts).kind_of(id)
                    matches Some(Kind::Bomb(left)) && left.is_live())
                &&& w.ticked_through(dts).kind_of(id) is None || w.ticked_through(dts).kind_of(id)
                    matches Some(Kind::Bomb(_))
            },
            other => {
                &&& despawns_of(w.ticked_through(dts).commands, id) == despawns_of(w.commands, id)
                &&& w.ticked_through(dts).kind_of(id) == other
            },
        },
    decreases dts.len(),
{
    if dts.len() > 0 {
        let before = w.ticked_through(dts.drop_last());
        lemma_bomb_removed_once(w, dts.drop_last(), id);
        lemma_tick_by_object(before, dts.last(), id);
        match w.kind_of(id) {
            Some(Kind::Bomb(bomb)) => {
                lemma_explodes_once(bomb, dts);
                lemma_explodes_once(bomb, dts.drop_last());
                lemma_fuse_burns_down(bomb.ticked_through(dts.drop_last()), dts.last());
            },
            _ => {},
        }
    } else {
        match w.kind_of(id) {
            Some(Kind::Bomb(bomb)) => {
                lemma_explodes_once(bomb, dts);
            },
            _ => {},
        }
    }
}

/// What laying a bomb does to the player and the table: the same player
/// is alone in the table afterwards, with the cooldown run on; a bomb is
/// laid exactly if the player may lay one, and then the player has one
/// bomb fewer and the new bomb, with the player's range and a fresh fuse,
/// has the handle that was next; otherwise the player keeps every bomb and
/// no object is new.
pub proof fn lemma_bomb_costs_one(w: WorldView, pressed: bool, dt: int, position: Vec3)
    requires
        w.wf(),
        w.has_room(1),
        w.is_playing(),
        w.has_sole_player(),
    ensures
        ({
            let player = w.sole_player()->Some_0;
            let after = w.bomb_dropped(pressed, dt, position);
            &&& after.wf()
            &&& after.sole_player_id() == w.sole_player_id()
            &&& after.sole_player() == Some(player.attempted(pressed, dt))
            &&& after.sole_player()->Some_0.bomb_range == player.bomb_range
            &&& after.sole_player()->Some_0.speed == player.speed
            &&& if w.lays_bomb(pressed, dt) {
                &&& player.bomb_amount > 0
                &&& after.sole_player()->Some_0.bomb_amount == player.bomb_amount - 1
                &&& after.kind_of(w.next_entity) == Some(
                    Kind::Bomb(
                        Bomb {
                            explode_timer: fresh_fuse(),
                            explosion_range: player.bomb_range,
                            armed_for_collision: false,
                        },
                    ),
                )
                &&& after.next_entity == w.next_entity + 1
            } else {
                &&& after.sole_player()->Some_0.bomb_amount == player.bomb_amount
                &&& after.objects.len() == w.objects.len()
                &&& after.next_entity == w.next_entity
                &&& after.commands == w.commands
            }
        }),
{
    let player = w.sole_player()->Some_0;
    let id = w.sole_player_id()->Some_0;
    let moved_on = w.with_kind(id, Kind::Player(player.attempted(pressed, dt)));
    lemma_player_gets_new_data(w, player.attempted(pressed, dt));
    lemma_changes_keep_wf(w, id, Kind::Player(player.attempted(pressed, dt)));
    if w.lays_bomb(pressed, dt) {
        let bomb = Kind::Bomb(player.waited(dt).placed_bomb());
        lemma_changes_keep_wf(moved_on, id, bomb);
        lemma_others_leave_the_player(moved_on, id, bomb);
        lemma_spawn_keeps_others(moved_on, bomb, id);
    }
}

impl WorldView {
    /// The world after the player had the chance to lay a bomb once for
    /// each of `attempts`, the `i`-th time at `positions[i]`.
    pub open spec fn bombs_dropped(
        self,
        attempts: Seq<(bool, int)>,
        positions: Seq<Vec3>,
    ) -> WorldView
        decreases attempts.len(),
    {
        if attempts.len() == 0 {
            self
        } else {
            self.bomb_dropped(
                attempts.first().0,
                attempts.first().1,
                positions.first(),
            ).bombs_dropped(attempts.drop_first(), positions.drop_first())
        }
    }
}

/// Over any run of chances to lay a bomb, in a world in play with exactly
/// one player, the same player stays alone in the table, each bomb laid
/// uses one handle and costs the player one bomb, and as many bombs are
/// laid as the player's own count of the run says.
pub proof fn lemma_bombs_cost_one_each(
    w: WorldView,
    attempts: Seq<(bool, int)>,
    positions: Seq<Vec3>,
)
    requires
        w.wf(),
        w.has_room(attempts.len() as int),
        w.is_playing(),
        w.has_sole_player(),
    ensures
        ({
            let player = w.sole_player()->Some_0;
            let after = w.bombs_dropped(attempts, positions);
            &&& after.wf()
            &&& after.is_playing()
            &&& after.sole_player_id() == w.sole_player_id()
            &&& after.sole_player() == Some(player.attempted_through(attempts))
            &&& after.next_entity == w.next_entity + player.bombs_laid(attempts)
            &&& after.sole_player()->Some_0.bomb_amount == player.bomb_amount - player.bombs_laid(
                attempts,
            )
        }),
    decreases attempts.len(),
{
    let player = w.sole_player()->Some_0;
    lemma_bombs_laid_are_paid(player, attempts);
    if attempts.len() > 0 {
        let (pressed, dt) = attempts.first();
        let next = w.bomb_dropped(pressed, dt, positions.first());
        lemma_bomb_costs_one(w, pressed, dt, positions.first());
        lemma_bombs_raise_no_flag(w, pressed, dt, positions.first(), 0);
        lemma_bombs_cost_one_each(next, attempts.drop_first(), positions.drop_first());
    }
}

/// However often the key is pressed, at most one bomb is laid within one
/// cooldown: if less than the cooldown passes between the first chance and
/// the last, at most one handle is used, and if the first chance lays a
/// bomb, that is the only one and the player ends with one bomb fewer.
pub proof fn lemma_one_bomb_per_cooldown_in_play(
    w: WorldView,
    attempts: Seq<(bool, int)>,
    positions: Seq<Vec3>,
)
    requires
        w.wf(),
        w.has_room(attempts.len() as int),
        w.is_playing(),
        w.has_sole_player(),
        attempts.len() > 0,
        time_spent(attempts.drop_first()) < BOMB_SPAWN_DELAY * NANOS_PER_MILLI,
    ensures
        ({
            let player = w.sole_player()->Some_0;
            let after = w.bombs_dropped(attempts, positions);
            &&& after.next_entity <= w.next_entity + 1
            &&& w.lays_bomb(attempts.first().0, attempts.first().1) ==> {
                &&& after.next_entity == w.next_entity + 1
                &&& after.kind_of(w.next_entity) matches Some(Kind::Bomb(_))
                &&& after.sole_player()->Some_0.bomb_amount == player.bomb_amount - 1
            }
        }),
{
    let player = w.sole_player()->Some_0;
    let (pressed, dt) = attempts.first();
    lemma_bombs_cost_one_each(w, attempts, positions);
    lemma_one_bomb_per_cooldown(player, attempts);
    if w.lays_bomb(pressed, dt) {
        let next = w.bomb_dropped(pressed, dt, positions.first());
        lemma_bomb_costs_one(w, pressed, dt, positions.first());
        lemma_bombs_raise_no_flag(w, pressed, dt, positions.first(), 0);
        lemma_no_bomb_during_cooldown(next.sole_player()->Some_0, attempts.drop_first());
        lemma_laid_bomb_stays(next, attempts.drop_first(), positions.drop_first(), w.next_entity);
    }
}

/// A chance to lay a bomb takes no object away and changes no bomb: what
/// was a bomb before a run of chances is the same bomb after it.
pub proof fn lemma_laid_bomb_stays(
    w: WorldView,
    attempts: Seq<(bool, int)>,
    positions: Seq<Vec3>,
    id: Entity,
)
    requires
        w.wf(),
        w.has_room(attempts.len() as int),
        w.kind_of(id) matches Some(Kind::Bomb(_)),
    ensures
        w.bombs_dropped(attempts, positions).kind_of(id) == w.kind_of(id),
    decreases attempts.len(),
{
    if attempts.len() > 0 {
        let (pressed, dt) = attempts.first();
        let position = positions.first();
        let next = w.bomb_dropped(pressed, dt, position);
        lemma_bombs_raise_no_flag(w, pressed, dt, position, id);
        assert(w.has(id));
        let row = w.index_of(id);
        assert(w.holds_at(id, row));
        assert(w.objects[row].id < w.next_entity);
        if w.is_playing() && w.has_sole_player() {
            let player = w.sole_player()->Some_0;
            let player_id = w.sole_player_id()->Some_0;
            let waited = Kind::Player(player.attempted(pressed, dt));
            let moved_on = w.with_kind(player_id, waited);
            let i = w.sole_player_index();
            assert(w.holds_at(player_id, i));
            lemma_row_unique(w.objects, player_id, i);
            lemma_changes_keep_wf(w, player_id, waited);
            lemma_replace_keeps_others(w, player_id, waited, id);
            if w.lays_bomb(pressed, dt) {
                let bomb = Kind::Bomb(player.waited(dt).placed_bomb());
                lemma_spawn_keeps_others(moved_on, bomb, id);
                assert(next.objects == moved_on.spawned(bomb).objects);
            }
        }
        lemma_laid_bomb_stays(next, attempts.drop_first(), positions.drop_first(), id);
    }
}

/// Neither laying a bomb nor burning the fuses raises a flag: afterwards
/// the world is well-formed and an object is a flag only if it was one
/// before.
pub proof fn lemma_bombs_raise_no_flag(
    w: WorldView,
    pressed: bool,
    dt: int,
    position: Vec3,
    id: Entity,
)
    requires
        w.wf(),
        w.has_room(1),
    ensures
        w.bomb_dropped(pressed, dt, position).wf(),
        w.bomb_dropped(pressed, dt, position).next_entity <= w.next_entity + 1,
        w.bomb_dropped(pressed, dt, position).state == w.state,
        w.bomb_dropped(pressed, dt, position).kind_of(id) matches Some(Kind::Flag(_))
            ==> w.kind_of(id) matches Some(Kind::Flag(_)),
        w.bombs_ticked(dt).wf(),
        w.bombs_ticked(dt).next_entity == w.next_entity,
        w.bombs_ticked(dt).state == w.state,
        w.bombs_ticked(dt).kind_of(id) matches Some(Kind::Flag(_)) ==> w.kind_of(id) matches Some(
            Kind::Flag(_),
        ),
{
    if w.is_playing() {
        lemma_tick_by_object(w, dt, id);
        if w.has_sole_player() {
            let player = w.sole_player()->Some_0;
            let player_id = w.sole_player_id()->Some_0;
            let waited = Kind::Player(player.attempted(pressed, dt));
            let moved_on = w.with_kind(player_id, waited);
            lemma_bomb_costs_one(w, pressed, dt, position);
            lemma_changes_keep_wf(w, player_id, waited);
            lemma_replace_keeps_others(w, player_id, waited, id);
            let i = w.sole_player_index();
            assert(w.holds_at(player_id, i));
            lemma_row_unique(w.objects, player_id, i);
            if w.lays_bomb(pressed, dt) {
                let bomb = Kind::Bomb(player.waited(dt).placed_bomb());
                lemma_spawn_keeps_others(moved_on, bomb, id);
                assert(w.bomb_dropped(pressed, dt, position).objects == moved_on.spawned(
                    bomb,
                ).objects);
            }
        }
    }
}

/// The bomb systems as one unit: burning the fuses, then laying a bomb.
#[derive(Clone, Copy, Debug, PartialEq, Eq, Hash, Default)]
pub struct BombPlugin;

impl BombPlugin {
    /// Burns every fuse for `dt` nanoseconds and then lets the player lay
    /// a bomb, whose fuse first burns in the next tick.
    pub fn update(&self, world: &mut World, bomb_key: bool, dt: i64, position: Vec3) -> (laid: Option<
        Entity,
    >)
        requires
            old(world).wf(),
            old(world)@.has_room(1),
        ensures
            final(world).wf(),
            final(world)@ == old(world)@.bombs_ticked(dt as int).bomb_dropped(
                bomb_key,
                dt as int,
                position,
            ),
            final(world)@.next_entity <= old(world)@.next_entity + 1,
            laid.is_some() <==> old(world)@.bombs_ticked(dt as int).lays_bomb(bomb_key, dt as int),
            laid.is_some() ==> laid == Some(old(world)@.next_entity),
    {
        explode_bomb(world, dt);
        drop_bomb(world, bomb_key, dt, position)
    }
}

/// Lets the player lay a bomb at `position` if the key is pressed, a bomb
/// is left and the cooldown, which runs on by `dt` nanoseconds first, has
/// run out.
pub fn drop_bomb(world: &mut World, pressed: bool, dt: i64, position: Vec3) -> (laid: Option<Entity>)
    requires
        old(world).wf(),
        old(world)@.has_room(1),
    ensures
        final(world).wf(),
        final(world)@ == old(world)@.bomb_dropped(pressed, dt as int, position),
        final(world)@.next_entity <= old(world)@.next_entity + 1,
        laid.is_some() <==> old(world)@.lays_bomb(pressed, dt as int),
        laid.is_some() ==> laid == Some(old(world)@.next_entity),
{
    if !world.state().is_gameplay() {
        return None;
    }
    match world.player() {
        Some((id, player)) => {
            let mut player = player;
            player.bomb_delay.tick(dt);
            if pressed {
                match player.place_bomb() {
                    Some(bomb) => {
                        world.replace(id, Kind::Player(player));
                        let laid = world.place(describe_bomb(position, bomb));
                        world.emit(Command::PlaySound(Sound::BombStart));
                        Some(laid)
                    },
                    None => {
                        world.replace(id, Kind::Player(player));
                        None
                    },
                }
            } else {
                world.replace(id, Kind::Player(player));
                None
            }
        },
        None => None,
    }
}

/// Burns every fuse for `dt` nanoseconds: bombs that exploded in the tick
/// before are cleared away, bombs that get primed have their hit region
/// switched on, and bombs whose fuse runs out are removed at the host and
/// heard. A bomb that explodes in this tick stays in the table, no longer
/// live, until the next tick, so that this tick's overlaps with it count.
pub fn explode_bomb(world: &mut World, dt: i64)
    requires
        old(world).wf(),
    ensures
        final(world).wf(),
        final(world)@ == old(world)@.bombs_ticked(dt as int),
        final(world)@.next_entity == old(world)@.next_entity,
{
    if !world.state().is_gameplay() {
        return ;
    }
    let ghost start = world@;
    let n = world.len();
    let mut kept: Vec<Object> = Vec::new();
    let mut i: usize = 0;
    while i < n
        invariant
            i <= n,
            n == start.objects.len(),
            start.wf(),
            world@ == (WorldView {
                commands: start.commands + start.objects.take(i as int).map_values(
                    report(dt as int),
                ).flatten(),
                ..start
            }),
            kept@ == start.objects.take(i as int).filter_map(burn(dt as int)),
            forall|a: int, b: int| 0 <= a < b < kept@.len() ==> kept@[a].id < kept@[b].id,
            forall|a: int|
                0 <= a < kept@.len() ==> (#[trigger] kept@[a]).id < start.next_entity && (i < n
                    ==> kept@[a].id < start.objects[i as int].id),
        decreases n - i,
    {
        let row = world.get(i);
        proof {
            start.objects.lemma_filter_map_take_succ(burn(dt as int), i as int);
            start.objects.lemma_take_succ_push(i as int);
            start.objects.take(i as int).lemma_push_map_commute(report(dt as int), row);
            start.objects.take(i as int).map_values(report(dt as int)).lemma_flatten_push(
                row_commands(row, dt as int),
            );
            assert(start.objects[i as int].id < start.next_entity);
            if i + 1 < n {
                assert(start.objects[i as int].id < start.objects[i + 1].id);
            }
        }
        match row.kind {
            Kind::Bomb(bomb) => {
                if !bomb.explode_timer.finished() {
                    let mut bomb = bomb;
                    let step = bomb.tick(dt);
                    if step.activated {
                        world.emit(Command::ActivateCollider(row.id));
                    }
                    if step.exploded {
                        world.emit(Command::Despawn(row.id));
                        world.emit(Command::PlaySound(Sound::BombExplosion));
                    }
                    kept.push(Object { id: row.id, kind: Kind::Bomb(bomb) });
                }
            },
            _ => {
                kept.push(row);
            },
        }
        assert(world@.commands =~= start.commands + start.objects.take(i + 1).map_values(
            report(dt as int),
        ).flatten());
        i = i + 1;
    }
    proof {
        start.objects.lemma_take_len();
    }
    world.set_objects(kept);
}

} // verus!
