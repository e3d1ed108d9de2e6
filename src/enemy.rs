//! Enemies: spawning, steering toward the player, facing, proximity-gated
//! colliders, and the animation-gated end of a dying enemy.

use vstd::prelude::*;
use crate::common::{UNIT, Health, Speed, IVec2, in_world, in_player_field, dist2, step_toward_spec, step_toward, distance_squared};
use crate::timer::{Timer, TimerMode};
use crate::spawn::{WindowSize, SpawnDirection, spawn_point_spec, direction_of_draw, along_range, offscreen, lemma_spawn_point_offscreen};
use crate::random::random_between;
use crate::resources::{Resource, resource_of_draw};
use crate::assets::{AnimationId, AnimationCatalog, GameAssetsHandles, SheetHandle, LayoutHandle, first_containing, entry_named, resource_animation_name, resource_animation};
use crate::combat::{dying_of, make_dying};
use crate::world::{lift, no_components, empty_components, EntityId, Components, Enemy, NearestNeighbour, Collider, World, alive, player_of, despawned, descends};

verus! {

pub const ENEMY_SPEED: u32 = 20;
pub const ENEMY_HEALTH: u32 = 40;
/// Period of an enemy's periodic damage, in milliseconds.
pub const DOT_PERIOD_MS: u32 = 2000;
/// Within this distance of the player an enemy stops closing in, in
/// position units.
pub const STEERING_DEADZONE: i64 = 10 * UNIT;
/// Enemies within this distance of the player get their collider.
pub const COLLIDER_RADIUS: i64 = 200 * UNIT;
pub const ENEMY_COLLIDER_WIDTH: u32 = 15;
pub const ENEMY_COLLIDER_HEIGHT: u32 = 45;
pub const RESOURCE_COLLIDER_SIZE: u32 = 15;
/// The animation collaborator finished repetition `animation_repetition` of
/// the active animation of `entity`.
#[derive(Debug, Clone, Copy, PartialEq, Eq, Structural)]
pub struct AnimationRepetitionEnd {
    pub entity: EntityId,
    pub animation_repetition: u32,
}

/// A fresh enemy: alive, tracked by the proximity index, without a collider.
pub open spec fn enemy_bundle(
    position: IVec2,
    speed: u32,
    health: u32,
    sheet: SheetHandle,
    layout: LayoutHandle,
    walk: AnimationId,
    death: Option<AnimationId>,
) -> Components {
    Components {
        enemy: Some(Enemy),
        nearest_neighbour: Some(NearestNeighbour),
        speed: Some(Speed(speed)),
        health: Some(Health(health)),
        sheet: Some(sheet),
        layout: Some(layout),
        animation: Some(walk),
        death_animation: death,
        dot_timer: Some(Timer { duration: DOT_PERIOD_MS, elapsed: 0, mode: TimerMode::Repeating }),
        ..no_components(position)
    }
}

/// An enemy of the archetype `name`: its sheet is the first monster sheet
/// whose key contains the name, its layout is stored as `{name}_layout`, it
/// walks with `{name}_walk` and dies with `{name}_idle` when that is there.
/// Without the sheet, the layout or the walk there is no enemy.
pub open spec fn enemy_of(
    name: Seq<char>,
    speed: u32,
    health: u32,
    position: IVec2,
    handles: GameAssetsHandles,
    catalog: AnimationCatalog,
) -> Option<Components> {
    let sheet = first_containing(handles.monsters_sheets@, name);
    let layout = entry_named(handles.layouts@, name + "_layout"@);
    let walk = catalog.lookup(name + "_walk"@);
    if sheet is Some && layout is Some && walk is Some {
        Some(enemy_bundle(position, speed, health, sheet->0, layout->0, walk->0, catalog.lookup(name + "_idle"@)))
    } else {
        None
    }
}

/// A dropped resource of `kind`.
pub open spec fn resource_bundle(kind: Resource, position: IVec2, animation: AnimationId) -> Components {
    Components {
        resource: Some(kind),
        animation: Some(animation),
        collider: Some(Collider::Rectangle { width: RESOURCE_COLLIDER_SIZE, height: RESOURCE_COLLIDER_SIZE }),
        ..no_components(position)
    }
}

/// Builds an enemy of the archetype `name` with the given speed and
/// health at `position`, when its assets are there.
pub fn new_enemy(
    name: &str,
    speed: u32,
    health: u32,
    position: IVec2,
    handles: &GameAssetsHandles,
    catalog: &AnimationCatalog,
) -> (r: Option<Components>)
    requires
        catalog.wf(),
    ensures
        r == enemy_of(name@, speed, health, position, *handles, *catalog),
{
    let layout = match handles.get_field(String::from_str(name).concat("_layout").as_str()) {
        Some(l) => l,
        None => {
            return None;
        },
    };
    let sheet = match handles.get_monster_sheet_handle(name) {
        Some(h) => h,
        None => {
            return None;
        },
    };
    let walk = match catalog.animation_with_name(&String::from_str(name).concat("_walk")) {
        Some(w) => w,
        None => {
            return None;
        },
    };
    let death = catalog.animation_with_name(&String::from_str(name).concat("_idle"));
    Some(Components {
        enemy: Some(Enemy),
        nearest_neighbour: Some(NearestNeighbour),
        speed: Some(Speed(speed)),
        health: Some(Health(health)),
        sheet: Some(sheet),
        layout: Some(layout),
        animation: Some(walk),
        death_animation: death,
        dot_timer: Some(Timer::new(DOT_PERIOD_MS, TimerMode::Repeating)),
        ..empty_components(position)
    })
}

pub fn new_resource(kind: Resource, position: IVec2, animation: AnimationId) -> (c: Components)
    ensures
        c == resource_bundle(kind, position, animation),
{
    Components {
        resource: Some(kind),
        animation: Some(animation),
        collider: Some(Collider::Rectangle { width: RESOURCE_COLLIDER_SIZE, height: RESOURCE_COLLIDER_SIZE }),
        ..empty_components(position)
    }
}

/// The position of the live player, if there is one.
pub open spec fn player_position(s: Seq<Option<Components>>) -> Option<IVec2> {
    match player_of(s) {
        Some(p) => Some(s[p]->0.position),
        None => None,
    }
}

/// One step of an enemy's chase after `dt` milliseconds.
pub open spec fn chased(c: Components, player: IVec2, dt: int) -> Components {
    if c.enemy is Some && c.dying is None && c.speed is Some && dist2(c.position, player)
        > STEERING_DEADZONE * STEERING_DEADZONE {
        Components {
            position: step_toward_spec(c.position, player, (c.speed->0).0 * dt),
            ..c
        }
    } else {
        c
    }
}

/// A live enemy faces the player: mirrored when the player is to its left.
pub open spec fn faced(c: Components, player: IVec2) -> Components {
    if c.enemy is Some && c.dying is None {
        Components { flip_x: !(c.position.x < player.x), ..c }
    } else {
        c
    }
}

/// Every enemy that is not yet dying starts dying.
pub open spec fn killed(c: Components) -> Components {
    if c.enemy is Some && c.dying is None {
        dying_of(c)
    } else {
        c
    }
}

/// A tracked, live enemy without a collider gets one once it is within
/// `COLLIDER_RADIUS` of the player.
pub open spec fn collider_attached(c: Components, player: IVec2) -> Components {
    if c.enemy is Some && c.nearest_neighbour is Some && c.collider is None && c.dying is None
        && dist2(c.position, player) <= COLLIDER_RADIUS * COLLIDER_RADIUS {
        Components {
            collider: Some(Collider::Rectangle { width: ENEMY_COLLIDER_WIDTH, height: ENEMY_COLLIDER_HEIGHT }),
            ..c
        }
    } else {
        c
    }
}

/// The slots after one spawner tick with the given draws, when the player
/// stands at `player`.
pub open spec fn enemy_spawned(
    s: Seq<Option<Components>>,
    timer: Timer,
    catalog: AnimationCatalog,
    handles: GameAssetsHandles,
    dt: int,
    window: WindowSize,
    player: IVec2,
    direction_draw: int,
    along: int,
) -> Seq<Option<Components>> {
    if timer.fired_spec(dt) > 0 {
        let point = spawn_point_spec(direction_of_draw(direction_draw), window, player, along);
        match enemy_of("monk"@, ENEMY_SPEED, ENEMY_HEALTH, point, handles, catalog) {
            Some(c) => s.push(Some(c)),
            None => s,
        }
    } else {
        s
    }
}

/// The slots after a repetition-end event, with `draw` picking the kind of
/// the drop: the first repetition of a dying enemy's animation drops a
/// resource where it stood and despawns it.
pub open spec fn repetition_end_handled(
    s: Seq<Option<Components>>,
    catalog: AnimationCatalog,
    ev: AnimationRepetitionEnd,
    draw: int,
) -> Seq<Option<Components>> {
    let e = ev.entity as int;
    if ev.animation_repetition == 1 && alive(s, e) && s[e]->0.enemy is Some && s[e]->0.dying is Some {
        let kind = resource_of_draw(draw);
        let dropped = match catalog.lookup(resource_animation_name(kind)) {
            Some(anim) => s.push(Some(resource_bundle(kind, s[e]->0.position, anim))),
            None => s,
        };
        despawned(dropped, e)
    } else {
        s
    }
}

impl World {
    /// Ticks the spawner; when it fires, an enemy appears beyond the window
    /// edge picked by `direction_draw` (in `0..=3`), at `along` on the other
    /// axis. Without the monk's sprite sheet, layout or walking animation
    /// the spawn is skipped and the next firing tries again. Nothing runs
    /// without a player.
    pub fn spawn_enemy_with(&mut self, dt: u32, window: WindowSize, direction_draw: i64, along: i64)
        requires
            old(self).wf(),
            window.wf(),
        ensures
            final(self).wf(),
            match player_position(old(self).entities@) {
                Some(p) => final(self).spawn_timer == old(self).spawn_timer.ticked_spec(dt as int)
                    && final(self).entities@ == enemy_spawned(old(self).entities@, old(self).spawn_timer,
                        old(self).catalog, old(self).handles, dt as int, window, p, direction_draw as int, along as int),
                None => final(self).spawn_timer == old(self).spawn_timer && final(self).entities@ == old(self).entities@,
            },
            final(self).entities@.len() != old(self).entities@.len() ==> {
                &&& player_position(old(self).entities@) is Some
                &&& final(self).entities@.len() == old(self).entities@.len() + 1
                &&& final(self).entities@.last() is Some
                &&& offscreen(direction_of_draw(direction_draw as int), window,
                    player_position(old(self).entities@)->0, final(self).entities@.last()->0.position)
            },
            final(self).resources == old(self).resources,
            final(self).catalog == old(self).catalog,
            final(self).handles == old(self).handles,
            final(self).state == old(self).state,
    {
        let p = match self.find_player() {
            Some(p) => p,
            None => {
                return;
            },
        };
        let player = match &self.entities[p] {
            Some(c) => c.position,
            None => {
                return;
            },
        };
        let fired = self.spawn_timer.tick(dt);
        if fired == 0 {
            return;
        }
        proof {
            assert(in_player_field(player));
            lemma_spawn_point_offscreen(direction_of_draw(direction_draw as int), window, player, along as int);
        }
        let dir = SpawnDirection::from_draw(direction_draw);
        let point = dir.spawn_point(&window, &player, along);
        if let Some(c) = new_enemy("monk", ENEMY_SPEED, ENEMY_HEALTH, point, &self.handles, &self.catalog) {
            self.spawn(c);
        }
    }

    /// Draws an edge (in `0..=3`) and, with a player, a coordinate along
    /// that edge within the window, both uniformly.
    pub fn spawn_draws(&self, window: WindowSize) -> (r: (i64, i64))
        requires
            self.wf(),
        ensures
            spawn_draws_ok(self.entities@, window, r.0 as int, r.1 as int),
    {
        let draw = random_between(0, 3);
        let mut along: i64 = 0;
        if let Some(p) = self.find_player() {
            if let Some(c) = &self.entities[p] {
                proof {
                    assert(in_world(c.position));
                }
                let dir = SpawnDirection::from_draw(draw);
                let (lo, hi) = dir.along_bounds(&window, &c.position);
                along = random_between(lo, hi);
            }
        }
        (draw, along)
    }

    /// The spawner tick with random draws: both the edge and the position
    /// along it are uniform.
    pub fn spawn_enemy(&mut self, dt: u32, window: WindowSize)
        requires
            old(self).wf(),
            window.wf(),
        ensures
            final(self).wf(),
            exists|d: int, a: int| spawn_draws_ok(old(self).entities@, window, d, a)
                && (final(self).entities@, final(self).spawn_timer) == spawn_stage(old(self).entities@,
                    old(self).spawn_timer, old(self).catalog, old(self).handles, dt as int, window, d, a),
            final(self).entities@.len() != old(self).entities@.len() ==> {
                &&& player_position(old(self).entities@) is Some
                &&& final(self).entities@.len() == old(self).entities@.len() + 1
                &&& final(self).entities@.last() is Some
                &&& exists|d: int| 0 <= d <= 3 && #[trigger] offscreen(direction_of_draw(d), window,
                    player_position(old(self).entities@)->0, final(self).entities@.last()->0.position)
            },
            final(self).resources == old(self).resources,
            final(self).catalog == old(self).catalog,
            final(self).handles == old(self).handles,
            final(self).state == old(self).state,
    {
        let (draw, along) = self.spawn_draws(window);
        self.spawn_enemy_with(dt, window, draw, along);
    }
}

/// Draws that the spawner may use: an edge in `0..=3` and, with a player, a
/// coordinate along that edge within the window.
pub open spec fn spawn_draws_ok(s: Seq<Option<Components>>, window: WindowSize, d: int, a: int) -> bool {
    &&& 0 <= d <= 3
    &&& (player_position(s) matches Some(p) ==> along_range(direction_of_draw(d), window, p).0 <= a
        <= along_range(direction_of_draw(d), window, p).1)
}

/// Slots and spawn timer after one spawner tick with the given draws; the
/// spawner waits for a player.
pub open spec fn spawn_stage(
    s: Seq<Option<Components>>,
    timer: Timer,
    catalog: AnimationCatalog,
    handles: GameAssetsHandles,
    dt: int,
    window: WindowSize,
    d: int,
    a: int,
) -> (Seq<Option<Components>>, Timer) {
    match player_position(s) {
        Some(p) => (enemy_spawned(s, timer, catalog, handles, dt, window, p, d, a), timer.ticked_spec(dt)),
        None => (s, timer),
    }
}


impl World {
    /// Moves every live enemy toward the player by its speed over `dt`
    /// milliseconds, unless it is already within the dead zone.
    pub fn move_towards_player(&mut self, dt: u32)
        requires
            old(self).wf(),
        ensures
            final(self).wf(),
            final(self).entities@.len() == old(self).entities@.len(),
            match player_position(old(self).entities@) {
                Some(p) => forall|j: int| 0 <= j < old(self).entities@.len() ==> #[trigger] final(self).entities@[j]
                    == lift(old(self).entities@[j], |c: Components| chased(c, p, dt as int)),
                None => final(self).entities@ == old(self).entities@,
            },
            final(self).resources == old(self).resources,
            final(self).spawn_timer == old(self).spawn_timer,
            final(self).catalog == old(self).catalog,
            final(self).handles == old(self).handles,
            final(self).state == old(self).state,
    {
        let player = match self.find_player() {
            Some(i) => match &self.entities[i] {
                Some(pc) => pc.position,
                None => {
                    return;
                },
            },
            None => {
                return;
            },
        };
        let ghost p = player;
        proof {
            assert(in_world(player));
        }
        let n = self.entities.len();
        let mut i: usize = 0;
        while i < n
            invariant
                0 <= i <= n,
                n == old(self).entities@.len(),
                self.wf(),
                self.entities@.len() == n,
                p == player,
                in_world(player),
                player_position(old(self).entities@) == Some(p),
                forall|j: int| 0 <= j < i ==> #[trigger] self.entities@[j]
                    == lift(old(self).entities@[j], |c: Components| chased(c, p, dt as int)),
                forall|j: int| i <= j < n ==> #[trigger] self.entities@[j] == old(self).entities@[j],
                self.resources == old(self).resources,
                self.spawn_timer == old(self).spawn_timer,
                self.catalog == old(self).catalog,
                self.handles == old(self).handles,
                self.state == old(self).state,
            decreases n - i,
        {
            if let Some(c) = self.entities[i] {
                let mut c = c;
                if c.enemy.is_some() && c.dying.is_none() {
                    if let Some(speed) = c.speed {
                        let d2 = distance_squared(c.position, player);
                        if d2 > (STEERING_DEADZONE * STEERING_DEADZONE) as u64 {
                            assert(speed.0 as u64 * dt as u64 <= u64::MAX) by (nonlinear_arith)
                                requires speed.0 <= u32::MAX, dt <= u32::MAX;
                            let step: u64 = speed.0 as u64 * dt as u64;
                            c.position = step_toward(c.position, player, step);
                        }
                    }
                }
                self.set_entity(i, c);
            }
            i = i + 1;
        }
    }
    /// Turns every live enemy's sprite toward the player.
    pub fn enemy_direction_change(&mut self)
        requires
            old(self).wf(),
        ensures
            final(self).wf(),
            final(self).entities@.len() == old(self).entities@.len(),
            match player_position(old(self).entities@) {
                Some(p) => forall|j: int| 0 <= j < old(self).entities@.len() ==> #[trigger] final(self).entities@[j]
                    == lift(old(self).entities@[j], |c: Components| faced(c, p)),
                None => final(self).entities@ == old(self).entities@,
            },
            final(self).resources == old(self).resources,
            final(self).spawn_timer == old(self).spawn_timer,
            final(self).catalog == old(self).catalog,
            final(self).handles == old(self).handles,
            final(self).state == old(self).state,
    {
        let player = match self.find_player() {
            Some(i) => match &self.entities[i] {
                Some(pc) => pc.position,
                None => {
                    return;
                },
            },
            None => {
                return;
            },
        };
        let ghost p = player;
        proof {
            assert(in_world(player));
        }
        let n = self.entities.len();
        let mut i: usize = 0;
        while i < n
            invariant
                0 <= i <= n,
                n == old(self).entities@.len(),
                self.wf(),
                self.entities@.len() == n,
                p == player,
                in_world(player),
                player_position(old(self).entities@) == Some(p),
                forall|j: int| 0 <= j < i ==> #[trigger] self.entities@[j]
                    == lift(old(self).entities@[j], |c: Components| faced(c, p)),
                forall|j: int| i <= j < n ==> #[trigger] self.entities@[j] == old(self).entities@[j],
                self.resources == old(self).resources,
                self.spawn_timer == old(self).spawn_timer,
                self.catalog == old(self).catalog,
                self.handles == old(self).handles,
                self.state == old(self).state,
            decreases n - i,
        {
            if let Some(c) = self.entities[i] {
                let mut c = c;
                if c.enemy.is_some() && c.dying.is_none() {
                    c.flip_x = !(c.position.x < player.x);
                }
                self.set_entity(i, c);
            }
            i = i + 1;
        }
    }
    /// When `pressed`, every enemy that is not yet dying starts dying.
    pub fn kill_all_on_screen(&mut self, pressed: bool)
        requires
            old(self).wf(),
        ensures
            final(self).wf(),
            final(self).entities@.len() == old(self).entities@.len(),
            forall|j: int| 0 <= j < old(self).entities@.len() ==> #[trigger] final(self).entities@[j]
                == lift(old(self).entities@[j], |c: Components| if pressed { killed(c) } else { c }),
            final(self).resources == old(self).resources,
            final(self).spawn_timer == old(self).spawn_timer,
            final(self).catalog == old(self).catalog,
            final(self).handles == old(self).handles,
            final(self).state == old(self).state,
    {
        let n = self.entities.len();
        let mut i: usize = 0;
        while i < n
            invariant
                0 <= i <= n,
                n == old(self).entities@.len(),
                self.wf(),
                self.entities@.len() == n,
                forall|j: int| 0 <= j < i ==> #[trigger] self.entities@[j]
                    == lift(old(self).entities@[j], |c: Components| if pressed { killed(c) } else { c }),
                forall|j: int| i <= j < n ==> #[trigger] self.entities@[j] == old(self).entities@[j],
                self.resources == old(self).resources,
                self.spawn_timer == old(self).spawn_timer,
                self.catalog == old(self).catalog,
                self.handles == old(self).handles,
                self.state == old(self).state,
            decreases n - i,
        {
            if let Some(c) = self.entities[i] {
                let mut c = c;
                if pressed && c.enemy.is_some() && c.dying.is_none() {
                    make_dying(&mut c);
                }
                self.set_entity(i, c);
            }
            i = i + 1;
        }
    }
    /// Gives a collider to each tracked enemy that the proximity index finds
    /// within `COLLIDER_RADIUS` of the player and that has none yet; dying
    /// enemies get none.
    pub fn add_colliders_to_close_enemies(&mut self)
        requires
            old(self).wf(),
        ensures
            final(self).wf(),
            final(self).entities@.len() == old(self).entities@.len(),
            match player_position(old(self).entities@) {
                Some(p) => forall|j: int| 0 <= j < old(self).entities@.len() ==> #[trigger] final(self).entities@[j]
                    == lift(old(self).entities@[j], |c: Components| collider_attached(c, p)),
                None => final(self).entities@ == old(self).entities@,
            },
            final(self).resources == old(self).resources,
            final(self).spawn_timer == old(self).spawn_timer,
            final(self).catalog == old(self).catalog,
            final(self).handles == old(self).handles,
            final(self).state == old(self).state,
    {
        let player = match self.find_player() {
            Some(i) => match &self.entities[i] {
                Some(pc) => pc.position,
                None => {
                    return;
                },
            },
            None => {
                return;
            },
        };
        let ghost p = player;
        let ghost s = self.entities@;
        let ghost f = |c: Components| collider_attached(c, p);
        proof {
            assert(in_world(player));
        }
        let close = self.within_distance(player, COLLIDER_RADIUS as u32);
        let n = self.entities.len();
        let mut k: usize = 0;
        let mut bound: usize = 0;
        while k < close.len()
            invariant
                0 <= k <= close.len(),
                n == s.len(),
                s == old(self).entities@,
                self.wf(),
                self.entities@.len() == n,
                player_position(s) == Some(p),
                in_world(player),
                p == player,
                f == (|c: Components| collider_attached(c, p)),
                forall|a: int, b: int| 0 <= a < b < close.len() ==> close[a] < close[b],
                forall|m: int| 0 <= m < close.len() ==> crate::proximity::indexed_within(s, #[trigger] close[m] as int, p, COLLIDER_RADIUS as int),
                forall|j: int| crate::proximity::indexed_within(s, j, p, COLLIDER_RADIUS as int) ==> exists|m: int| 0 <= m < close.len() && #[trigger] close[m] == j,
                k == 0 ==> bound == 0,
                k > 0 ==> bound == close[k - 1] + 1,
                bound <= n,
                forall|j: int| 0 <= j < bound ==> #[trigger] self.entities@[j] == lift(s[j], f),
                forall|j: int| bound <= j < n ==> #[trigger] self.entities@[j] == s[j],
                self.resources == old(self).resources,
                self.spawn_timer == old(self).spawn_timer,
                self.catalog == old(self).catalog,
                self.handles == old(self).handles,
                self.state == old(self).state,
            decreases close.len() - k,
        {
            let e = close[k];
            proof {
                assert(crate::proximity::indexed_within(s, e as int, p, COLLIDER_RADIUS as int));
                if k > 0 {
                    assert(close[k - 1] < close[k as int]);
                }
                assert forall|j: int| bound <= j < e implies lift(s[j], f) == s[j] by {
                    if crate::proximity::indexed_within(s, j, p, COLLIDER_RADIUS as int) {
                        let m = choose|m: int| 0 <= m < close.len() && #[trigger] close[m] == j;
                        if m < k {
                            if m < k - 1 {
                                assert(close[m] < close[k - 1]);
                            }
                        } else if m > k {
                            assert(close[k as int] < close[m]);
                        }
                    }
                }
            }
            if let Some(c) = self.entities[e] {
                let mut c = c;
                if c.enemy.is_some() && c.collider.is_none() && c.dying.is_none() {
                    c.collider = Some(Collider::Rectangle { width: ENEMY_COLLIDER_WIDTH, height: ENEMY_COLLIDER_HEIGHT });
                }
                self.set_entity(e, c);
            }
            bound = e + 1;
            k = k + 1;
        }
        proof {
            assert forall|j: int| 0 <= j < n implies #[trigger] self.entities@[j] == lift(s[j], f) by {
                if j >= bound {
                    if crate::proximity::indexed_within(s, j, p, COLLIDER_RADIUS as int) {
                        let m = choose|m: int| 0 <= m < close.len() && #[trigger] close[m] == j;
                        if m < close.len() - 1 {
                            assert(close[m] < close[close.len() - 1]);
                        }
                    }
                }
            }
        }
    }
}


/// An enemy beyond `COLLIDER_RADIUS` of the player never gains a collider;
/// one within it gains exactly one, and checking again changes nothing.
pub proof fn lemma_proximity_collider(c: Components, player: IVec2)
    ensures
        dist2(c.position, player) > COLLIDER_RADIUS * COLLIDER_RADIUS ==> collider_attached(c, player) == c,
        collider_attached(collider_attached(c, player), player) == collider_attached(c, player),
        c.enemy is Some && c.nearest_neighbour is Some && c.collider is None && c.dying is None
            && dist2(c.position, player) <= COLLIDER_RADIUS * COLLIDER_RADIUS ==> collider_attached(c, player).collider
            == Some(Collider::Rectangle { width: ENEMY_COLLIDER_WIDTH, height: ENEMY_COLLIDER_HEIGHT }),
{
}

proof fn lemma_despawned_gone(s: Seq<Option<Components>>, e: int)
    requires
        alive(s, e),
    ensures
        !alive(despawned(s, e), e),
        despawned(s, e).len() == s.len(),
{
    assert(descends(s, e, e));
}

/// A dying enemy is despawned, and drops its resource, on the first
/// delivery of the end of its animation's first repetition: a repeated
/// delivery, whatever its draw, changes nothing more.
pub proof fn lemma_single_despawn_and_drop(
    s: Seq<Option<Components>>,
    catalog: AnimationCatalog,
    ev: AnimationRepetitionEnd,
    first_draw: int,
    second_draw: int,
)
    ensures
        ({
            let once = repetition_end_handled(s, catalog, ev, first_draw);
            repetition_end_handled(once, catalog, ev, second_draw) == once
        }),
        ev.animation_repetition == 1 && alive(s, ev.entity as int) && s[ev.entity as int]->0.enemy is Some
            && s[ev.entity as int]->0.dying is Some ==> {
            let once = repetition_end_handled(s, catalog, ev, first_draw);
            &&& !alive(once, ev.entity as int)
            &&& once.len() <= s.len() + 1
        },
{
    let e = ev.entity as int;
    if ev.animation_repetition == 1 && alive(s, e) && s[e]->0.enemy is Some && s[e]->0.dying is Some {
        let kind = resource_of_draw(first_draw);
        let dropped = match catalog.lookup(resource_animation_name(kind)) {
            Some(anim) => s.push(Some(resource_bundle(kind, s[e]->0.position, anim))),
            None => s,
        };
        assert(dropped[e] == s[e]);
        lemma_despawned_gone(dropped, e);
    }
}

impl World {
    /// Handles one repetition-end event with `draw` (in `0..=99`) picking
    /// the kind of the drop; see `repetition_end_handled`.
    pub fn on_animation_repetition_end(&mut self, ev: AnimationRepetitionEnd, draw: i64)
        requires
            old(self).wf(),
        ensures
            final(self).wf(),
            final(self).entities@ == repetition_end_handled(old(self).entities@, old(self).catalog, ev, draw as int),
            final(self).resources == old(self).resources,
            final(self).spawn_timer == old(self).spawn_timer,
            final(self).catalog == old(self).catalog,
            final(self).handles == old(self).handles,
            final(self).state == old(self).state,
    {
        let e = ev.entity;
        if ev.animation_repetition != 1 || e >= self.entities.len() {
            return;
        }
        let position = match &self.entities[e] {
            Some(c) => {
                if c.enemy.is_none() || c.dying.is_none() {
                    return;
                }
                c.position
            },
            None => {
                return;
            },
        };
        let kind = Resource::from_draw(draw);
        match self.catalog.find(resource_animation(kind)) {
            Some(anim) => {
                self.spawn(new_resource(kind, position, anim));
            },
            None => {},
        }
        self.despawn_recursive(e);
    }

    /// Handles the animation events of a tick in order, `draws[k]` (in
    /// `0..=99`) picking the kind of the drop for `events[k]`.
    pub fn handle_repetition_ends(&mut self, events: &Vec<AnimationRepetitionEnd>, draws: &Vec<i64>)
        requires
            old(self).wf(),
            draws.len() == events.len(),
        ensures
            final(self).wf(),
            final(self).entities@ == handled_all(old(self).entities@, old(self).catalog, events@, draws@),
            final(self).resources == old(self).resources,
            final(self).spawn_timer == old(self).spawn_timer,
            final(self).catalog == old(self).catalog,
            final(self).handles == old(self).handles,
            final(self).state == old(self).state,
    {
        let mut i: usize = 0;
        while i < events.len()
            invariant
                0 <= i <= events.len(),
                draws.len() == events.len(),
                self.wf(),
                self.entities@ == handled_all(old(self).entities@, old(self).catalog, events@.subrange(0, i as int), draws@.subrange(0, i as int)),
                self.resources == old(self).resources,
                self.spawn_timer == old(self).spawn_timer,
                self.catalog == old(self).catalog,
                self.handles == old(self).handles,
                self.state == old(self).state,
            decreases events.len() - i,
        {
            proof {
                assert(events@.subrange(0, i + 1).drop_last() =~= events@.subrange(0, i as int));
                assert(draws@.subrange(0, i + 1).drop_last() =~= draws@.subrange(0, i as int));
            }
            self.on_animation_repetition_end(events[i], draws[i]);
            i = i + 1;
        }
        proof {
            assert(events@.subrange(0, events.len() as int) =~= events@);
            assert(draws@.subrange(0, draws.len() as int) =~= draws@);
        }
    }

    /// Handles the animation events of a tick in order, drawing the kind of
    /// each drop at random.
    pub fn on_death_animation_end(&mut self, events: &Vec<AnimationRepetitionEnd>)
        requires
            old(self).wf(),
        ensures
            final(self).wf(),
            exists|draws: Seq<i64>| draws_in(draws, events@.len(), 99)
                && final(self).entities@ == handled_all(old(self).entities@, old(self).catalog, events@, draws),
            final(self).resources == old(self).resources,
            final(self).spawn_timer == old(self).spawn_timer,
            final(self).catalog == old(self).catalog,
            final(self).handles == old(self).handles,
            final(self).state == old(self).state,
    {
        let draws = random_draws(events.len(), 99);
        self.handle_repetition_ends(events, &draws);
    }
}

/// `n` draws, each in `0..=max`.
pub open spec fn draws_in(draws: Seq<i64>, n: nat, max: int) -> bool {
    draws.len() == n && forall|k: int| 0 <= k < draws.len() ==> 0 <= #[trigger] draws[k] <= max
}

/// `n` uniform draws in `0..=max`.
pub fn random_draws(n: usize, max: i64) -> (draws: Vec<i64>)
    requires
        max >= 0,
    ensures
        draws_in(draws@, n as nat, max as int),
{
    let mut draws: Vec<i64> = Vec::new();
    let mut i: usize = 0;
    while i < n
        invariant
            0 <= i <= n,
            max >= 0,
            draws_in(draws@, i as nat, max as int),
        decreases n - i,
    {
        let d = random_between(0, max);
        draws.push(d);
        i = i + 1;
    }
    draws
}

/// The slots after the events of a tick, handled in order with their draws.
pub open spec fn handled_all(
    s: Seq<Option<Components>>,
    catalog: AnimationCatalog,
    events: Seq<AnimationRepetitionEnd>,
    draws: Seq<i64>,
) -> Seq<Option<Components>>
    decreases events.len(),
{
    if events.len() == 0 {
        s
    } else {
        repetition_end_handled(
            handled_all(s, catalog, events.drop_last(), draws.drop_last()),
            catalog,
            events.last(),
            draws.last() as int,
        )
    }
}

} // verus!
