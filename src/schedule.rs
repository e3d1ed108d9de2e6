//! One tick of the simulation: every system, in a fixed order.

use vstd::prelude::*;
use crate::common::IVec2;
use crate::timer::Timer;
use crate::movement::{DirectionChanged, KeyInput};
use crate::spawn::WindowSize;
use crate::resources::Resources;
use crate::assets::{AnimationCatalog, GameAssetsHandles};
use crate::combat::{CollisionStarted, dot_ticked, flash_ticked, hits_applied, hits_of_collisions};
use crate::enemy::{AnimationRepetitionEnd, chased, faced, collider_attached, killed, player_position,
    spawn_stage, spawn_draws_ok, handled_all, draws_in, random_draws};
use crate::pickup::{marked_close, tween_advanced, followed, picked_up};
use crate::player::{player_moved, rotated};
use crate::world::{EntityId, Components, World, GameState, player_of};

verus! {

/// What the collaborators report for one tick.
pub struct Frame {
    /// Milliseconds since the previous tick.
    pub dt: u32,
    pub input: KeyInput,
    /// Whether the key that defeats every enemy was pressed this tick.
    pub kill_all: bool,
    pub window: WindowSize,
    /// Overlaps that began this tick.
    pub collisions: Vec<CollisionStarted>,
    /// Entities the player currently touches.
    pub player_overlaps: Vec<EntityId>,
    /// Animation repetitions that ended this tick.
    pub animation_events: Vec<AnimationRepetitionEnd>,
}

/// Every enemy's chase step.
pub open spec fn chased_all(s: Seq<Option<Components>>, p: IVec2, dt: int) -> Seq<Option<Components>> {
    Seq::new(s.len(), |j: int| match s[j] {
        Some(c) => Some(chased(c, p, dt)),
        None => None,
    })
}

/// Every enemy turned toward the player.
pub open spec fn faced_all(s: Seq<Option<Components>>, p: IVec2) -> Seq<Option<Components>> {
    Seq::new(s.len(), |j: int| match s[j] {
        Some(c) => Some(faced(c, p)),
        None => None,
    })
}

/// Colliders for the enemies near the player.
pub open spec fn collider_all(s: Seq<Option<Components>>, p: IVec2) -> Seq<Option<Components>> {
    Seq::new(s.len(), |j: int| match s[j] {
        Some(c) => Some(collider_attached(c, p)),
        None => None,
    })
}

/// Every enemy dying.
pub open spec fn killed_all(s: Seq<Option<Components>>) -> Seq<Option<Components>> {
    Seq::new(s.len(), |j: int| match s[j] {
        Some(c) => Some(killed(c)),
        None => None,
    })
}

/// Every enemy's periodic damage.
pub open spec fn dot_all(s: Seq<Option<Components>>, dt: int) -> Seq<Option<Components>> {
    Seq::new(s.len(), |j: int| match s[j] {
        Some(c) => Some(dot_ticked(c, dt)),
        None => None,
    })
}

/// Every hit tint wearing off.
pub open spec fn flash_all(s: Seq<Option<Components>>, dt: int) -> Seq<Option<Components>> {
    Seq::new(s.len(), |j: int| match s[j] {
        Some(c) => Some(flash_ticked(c, dt)),
        None => None,
    })
}

/// Every orb turned.
pub open spec fn rotated_all(s: Seq<Option<Components>>, dt: int) -> Seq<Option<Components>> {
    Seq::new(s.len(), |j: int| match s[j] {
        Some(c) => Some(rotated(c, dt)),
        None => None,
    })
}

/// Homing moves started near the player.
pub open spec fn marked_all(s: Seq<Option<Components>>, p: IVec2) -> Seq<Option<Components>> {
    Seq::new(s.len(), |j: int| match s[j] {
        Some(c) => Some(marked_close(c, p)),
        None => None,
    })
}

/// Homing moves advanced.
pub open spec fn tween_all(s: Seq<Option<Components>>, dt: int) -> Seq<Option<Components>> {
    Seq::new(s.len(), |j: int| match s[j] {
        Some(c) => Some(tween_advanced(c, dt)),
        None => None,
    })
}

/// Following resources moved.
pub open spec fn followed_all(s: Seq<Option<Components>>, p: IVec2, dt: int) -> Seq<Option<Components>> {
    Seq::new(s.len(), |j: int| match s[j] {
        Some(c) => Some(followed(c, p, dt)),
        None => None,
    })
}

/// The player's move, and its facing change.
pub open spec fn move_stage(s: Seq<Option<Components>>, catalog: AnimationCatalog, input: KeyInput, dt: int) -> (Seq<Option<Components>>, Option<DirectionChanged>) {
    match player_of(s) {
        Some(p) => {
            let (c, ev) = player_moved(s[p]->0, catalog, input, dt);
            (s.update(p, Some(c)), ev)
        },
        None => (s, None),
    }
}

pub open spec fn chase_stage(s: Seq<Option<Components>>, dt: int) -> Seq<Option<Components>> {
    match player_position(s) {
        Some(p) => chased_all(s, p, dt),
        None => s,
    }
}

/// Facing, colliders near the player, the defeat-all key, and weapon hits:
/// all wait for a player.
pub open spec fn engage_stage(s: Seq<Option<Components>>, kill_all: bool, collisions: Seq<CollisionStarted>) -> Seq<Option<Components>> {
    match player_position(s) {
        Some(p) => {
            let s1 = collider_all(faced_all(s, p), p);
            let s2 = if kill_all { killed_all(s1) } else { s1 };
            hits_applied(s2, hits_of_collisions(s2, collisions))
        },
        None => s,
    }
}

/// Timers and the orb; then, with a player, the death handshake.
pub open spec fn timers_stage(
    s: Seq<Option<Components>>,
    catalog: AnimationCatalog,
    dt: int,
    events: Seq<AnimationRepetitionEnd>,
    draws: Seq<i64>,
) -> Seq<Option<Components>> {
    let s1 = rotated_all(flash_all(dot_all(s, dt), dt), dt);
    if player_of(s1) is Some {
        handled_all(s1, catalog, events, draws)
    } else {
        s1
    }
}

/// Pickup, then homing and following.
pub open spec fn collect_stage(
    s: Seq<Option<Components>>,
    inv: Resources,
    overlaps: Seq<EntityId>,
    dt: int,
) -> (Seq<Option<Components>>, Resources) {
    let (s1, inv1) = if player_of(s) is Some {
        picked_up(s, inv, overlaps)
    } else {
        (s, inv)
    };
    let s2 = match player_position(s1) {
        Some(p) => marked_all(s1, p),
        None => s1,
    };
    let s3 = tween_all(s2, dt);
    let s4 = match player_position(s3) {
        Some(p) => followed_all(s3, p, dt),
        None => s3,
    };
    (s4, inv1)
}

/// The draws of a tick that the spawner and the death handshake may use.
pub open spec fn tick_draws_ok(
    s: Seq<Option<Components>>,
    catalog: AnimationCatalog,
    frame: Frame,
    d: int,
    a: int,
    draws: Seq<i64>,
) -> bool {
    let (s1, _) = move_stage(s, catalog, frame.input, frame.dt as int);
    &&& spawn_draws_ok(chase_stage(s1, frame.dt as int), frame.window, d, a)
    &&& draws_in(draws, frame.animation_events@.len(), 99)
}

/// A running tick: the entities, inventory, spawn timer and facing change
/// after every system has run, in order, with the given draws.
pub open spec fn tick_spec(
    s: Seq<Option<Components>>,
    inv: Resources,
    timer: Timer,
    catalog: AnimationCatalog,
    handles: GameAssetsHandles,
    frame: Frame,
    d: int,
    a: int,
    draws: Seq<i64>,
) -> (Seq<Option<Components>>, Resources, Timer, Option<DirectionChanged>) {
    let dt = frame.dt as int;
    let (s1, ev) = move_stage(s, catalog, frame.input, dt);
    let s2 = chase_stage(s1, dt);
    let (s3, t3) = spawn_stage(s2, timer, catalog, handles, dt, frame.window, d, a);
    let s4 = engage_stage(s3, frame.kill_all, frame.collisions@);
    let s5 = timers_stage(s4, catalog, dt, frame.animation_events@, draws);
    let (s6, inv6) = collect_stage(s5, inv, frame.player_overlaps@, dt);
    (s6, inv6, t3, ev)
}

impl World {
    fn run_movement(&mut self, frame: &Frame) -> (r: (Option<DirectionChanged>, i64, i64))
        requires
            old(self).wf(),
            frame.window.wf(),
        ensures
            final(self).wf(),
            ({
                let (s1, ev) = move_stage(old(self).entities@, old(self).catalog, frame.input, frame.dt as int);
                let s2 = chase_stage(s1, frame.dt as int);
                &&& r.0 == ev
                &&& spawn_draws_ok(s2, frame.window, r.1 as int, r.2 as int)
                &&& (final(self).entities@, final(self).spawn_timer) == spawn_stage(s2, old(self).spawn_timer,
                    old(self).catalog, old(self).handles, frame.dt as int, frame.window, r.1 as int, r.2 as int)
            }),
            final(self).resources == old(self).resources,
            final(self).catalog == old(self).catalog,
            final(self).handles == old(self).handles,
            final(self).state == old(self).state,
    {
        let ghost s0 = self.entities@;
        let event = self.move_player(frame.input, frame.dt);
        let ghost s1 = self.entities@;
        proof {
            assert((s1, event) == move_stage(s0, self.catalog, frame.input, frame.dt as int));
        }
        self.move_towards_player(frame.dt);
        proof {
            if let Some(p) = player_position(s1) {
                assert(self.entities@ =~= chased_all(s1, p, frame.dt as int));
            }
        }
        let (d, a) = self.spawn_draws(frame.window);
        self.spawn_enemy_with(frame.dt, frame.window, d, a);
        (event, d, a)
    }

    fn run_engagement(&mut self, frame: &Frame)
        requires
            old(self).wf(),
        ensures
            final(self).wf(),
            final(self).entities@ == engage_stage(old(self).entities@, frame.kill_all, frame.collisions@),
            final(self).resources == old(self).resources,
            final(self).spawn_timer == old(self).spawn_timer,
            final(self).catalog == old(self).catalog,
            final(self).handles == old(self).handles,
            final(self).state == old(self).state,
    {
        let ghost s0 = self.entities@;
        if self.find_player().is_none() {
            return;
        }
        let ghost p = player_position(s0)->0;
        self.enemy_direction_change();
        proof {
            assert(self.entities@ =~= faced_all(s0, p));
            crate::world::lemma_player_kept(s0, self.entities@);
        }
        let ghost s1 = self.entities@;
        self.add_colliders_to_close_enemies();
        proof {
            assert(self.entities@ =~= collider_all(s1, p));
            crate::world::lemma_player_kept(s1, self.entities@);
        }
        let ghost s2 = self.entities@;
        self.kill_all_on_screen(frame.kill_all);
        proof {
            if frame.kill_all {
                assert(self.entities@ =~= killed_all(s2));
            } else {
                assert(self.entities@ =~= s2);
            }
        }
        let hits = self.detect_collision_with_enemy(&frame.collisions);
        self.deal_damage_to_enemy(&hits);
    }

    fn run_timers(&mut self, frame: &Frame) -> (draws: Vec<i64>)
        requires
            old(self).wf(),
        ensures
            final(self).wf(),
            draws_in(draws@, frame.animation_events@.len(), 99),
            final(self).entities@ == timers_stage(old(self).entities@, old(self).catalog, frame.dt as int,
                frame.animation_events@, draws@),
            final(self).resources == old(self).resources,
            final(self).spawn_timer == old(self).spawn_timer,
            final(self).catalog == old(self).catalog,
            final(self).handles == old(self).handles,
            final(self).state == old(self).state,
    {
        let ghost s0 = self.entities@;
        self.tick_damage_over_time(frame.dt);
        proof {
            assert(self.entities@ =~= dot_all(s0, frame.dt as int));
        }
        let ghost s1 = self.entities@;
        self.change_color_to_normal(frame.dt);
        proof {
            assert(self.entities@ =~= flash_all(s1, frame.dt as int));
        }
        let ghost s2 = self.entities@;
        self.rotate_orb(frame.dt);
        proof {
            assert(self.entities@ =~= rotated_all(s2, frame.dt as int));
        }
        let draws = random_draws(frame.animation_events.len(), 99);
        if self.find_player().is_some() {
            self.handle_repetition_ends(&frame.animation_events, &draws);
        }
        draws
    }

    fn run_collection(&mut self, frame: &Frame)
        requires
            old(self).wf(),
        ensures
            final(self).wf(),
            (final(self).entities@, final(self).resources) == collect_stage(old(self).entities@,
                old(self).resources, frame.player_overlaps@, frame.dt as int),
            final(self).spawn_timer == old(self).spawn_timer,
            final(self).catalog == old(self).catalog,
            final(self).handles == old(self).handles,
            final(self).state == old(self).state,
    {
        self.resource_pickup(&frame.player_overlaps);
        let ghost s1 = self.entities@;
        self.mark_resource_as_close();
        proof {
            if let Some(p) = player_position(s1) {
                assert(self.entities@ =~= marked_all(s1, p));
            }
        }
        let ghost s2 = self.entities@;
        self.mark_resource_as_following(frame.dt);
        proof {
            assert(self.entities@ =~= tween_all(s2, frame.dt as int));
        }
        let ghost s3 = self.entities@;
        self.update_resource_position(frame.dt);
        proof {
            if let Some(p) = player_position(s3) {
                assert(self.entities@ =~= followed_all(s3, p, frame.dt as int));
            }
        }
    }

    /// Runs one tick: player movement, enemy chase, spawning, then (with a
    /// player) facing, proximity colliders, the defeat-all key and weapon
    /// hits, then periodic damage, tints and the orb, then (with a player)
    /// the death handshake, then pickup, homing and following. Returns the
    /// player's facing change, if any. While assets load, nothing runs.
    pub fn update(&mut self, frame: &Frame) -> (event: Option<DirectionChanged>)
        requires
            old(self).wf(),
            frame.window.wf(),
        ensures
            final(self).wf(),
            final(self).catalog == old(self).catalog,
            final(self).handles == old(self).handles,
            final(self).state == old(self).state,
            old(self).state == GameState::AssetLoading ==> final(self).entities@ == old(self).entities@
                && final(self).resources == old(self).resources
                && final(self).spawn_timer == old(self).spawn_timer && event is None,
            old(self).state == GameState::Next ==> exists|d: int, a: int, draws: Seq<i64>|
                tick_draws_ok(old(self).entities@, old(self).catalog, *frame, d, a, draws)
                && (final(self).entities@, final(self).resources, final(self).spawn_timer, event)
                    == tick_spec(old(self).entities@, old(self).resources, old(self).spawn_timer,
                        old(self).catalog, old(self).handles, *frame, d, a, draws),
    {
        if self.state == GameState::AssetLoading {
            return None;
        }
        let (event, d, a) = self.run_movement(frame);
        self.run_engagement(frame);
        let draws = self.run_timers(frame);
        self.run_collection(frame);
        proof {
            assert(tick_draws_ok(old(self).entities@, old(self).catalog, *frame, d as int, a as int, draws@));
        }
        event
    }
}

} // verus!
