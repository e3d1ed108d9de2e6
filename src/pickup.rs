//! Resource pickup: a resource near the player homes in on it, then follows
//! it, and is collected once the player touches it.

use vstd::prelude::*;
use crate::common::{UNIT, IVec2, in_world, dist2, lerp, lerp_coord, step_toward_spec, step_toward, distance_squared};
use crate::resources::{Resource, Resources, ResourceCollected};
use crate::enemy::player_position;
use crate::world::{lift, EntityId, Components, Tween, World, alive, player_of, despawned};

verus! {

/// Resources closer than this to the player start homing in.
pub const PICKUP_RANGE: i64 = 70 * UNIT;
/// Length of the homing move, in milliseconds.
pub const PICKUP_TWEEN_MS: u32 = 500;
/// Speed of a resource that follows the player, in units per second.
pub const FOLLOW_SPEED: u32 = 250;

/// A resource that comes within `PICKUP_RANGE` of the player starts a
/// homing move from where it is to where the player is.
pub open spec fn marked_close(c: Components, player: IVec2) -> Components {
    if c.resource is Some && c.player is None && c.pickup_tween is None && dist2(c.position, player)
        < PICKUP_RANGE * PICKUP_RANGE {
        Components {
            pickup_tween: Some(Tween { start: c.position, end: player, duration: PICKUP_TWEEN_MS, elapsed: 0 }),
            ..c
        }
    } else {
        c
    }
}

/// The homing move advanced by `dt` milliseconds; when it completes, the
/// resource starts following the player.
pub open spec fn tween_advanced(c: Components, dt: int) -> Components {
    if c.resource is Some && c.pickup_tween is Some && !c.following_player {
        let t = c.pickup_tween->0;
        let el: int = if t.elapsed + dt >= t.duration { t.duration as int } else { t.elapsed + dt };
        Components {
            pickup_tween: Some(Tween { elapsed: el as u32, ..t }),
            position: IVec2 {
                x: lerp(t.start.x as int, t.end.x as int, el, t.duration as int) as i64,
                y: lerp(t.start.y as int, t.end.y as int, el, t.duration as int) as i64,
            },
            following_player: el == t.duration,
            ..c
        }
    } else {
        c
    }
}

/// A following resource chases the player at `FOLLOW_SPEED`.
pub open spec fn followed(c: Components, player: IVec2, dt: int) -> Components {
    if c.resource is Some && c.following_player {
        Components { position: step_toward_spec(c.position, player, FOLLOW_SPEED * dt), ..c }
    } else {
        c
    }
}

/// Collecting entity `e`, if it is a live resource: one of its kind joins
/// the inventory and the entity is despawned.
pub open spec fn collected(s: Seq<Option<Components>>, inv: Resources, e: int) -> (Seq<Option<Components>>, Resources) {
    if alive(s, e) && s[e]->0.resource is Some && s[e]->0.player is None {
        (despawned(s, e), inv.added(s[e]->0.resource->0, 1))
    } else {
        (s, inv)
    }
}

/// Collecting each overlapping entity in turn.
pub open spec fn picked_up(s: Seq<Option<Components>>, inv: Resources, overlaps: Seq<EntityId>) -> (Seq<Option<Components>>, Resources)
    decreases overlaps.len(),
{
    if overlaps.len() == 0 {
        (s, inv)
    } else {
        let (s1, inv1) = picked_up(s, inv, overlaps.drop_last());
        collected(s1, inv1, overlaps.last() as int)
    }
}

impl World {
    /// Handles a collection targeted at `entity`: the inventory takes the
    /// amount and the entity is despawned.
    pub fn on_resource_collected(&mut self, entity: EntityId, event: ResourceCollected)
        requires
            old(self).wf(),
        ensures
            final(self).wf(),
            final(self).resources == old(self).resources.added(event.resource, event.amount as int),
            final(self).entities@ == despawned(old(self).entities@, entity as int),
            final(self).spawn_timer == old(self).spawn_timer,
            final(self).catalog == old(self).catalog,
            final(self).handles == old(self).handles,
            final(self).state == old(self).state,
    {
        self.resources.on_resource_collected(event);
        self.despawn_recursive(entity);
    }

    fn collect(&mut self, e: EntityId)
        requires
            old(self).wf(),
        ensures
            final(self).wf(),
            (final(self).entities@, final(self).resources) == collected(old(self).entities@, old(self).resources, e as int),
            final(self).spawn_timer == old(self).spawn_timer,
            final(self).catalog == old(self).catalog,
            final(self).handles == old(self).handles,
            final(self).state == old(self).state,
    {
        if e >= self.entities.len() {
            return;
        }
        let kind = match &self.entities[e] {
            Some(c) => {
                if c.player.is_some() {
                    return;
                }
                match c.resource {
                    Some(kind) => kind,
                    None => {
                        return;
                    },
                }
            },
            None => {
                return;
            },
        };
        self.on_resource_collected(e, ResourceCollected { resource: kind, amount: 1 });
    }

    /// Collects every resource among the entities that the player touches
    /// (`overlaps`, as the physics reports them), in order. Nothing happens
    /// without a player.
    pub fn resource_pickup(&mut self, overlaps: &Vec<EntityId>)
        requires
            old(self).wf(),
        ensures
            final(self).wf(),
            player_of(old(self).entities@) is Some ==> (final(self).entities@, final(self).resources)
                == picked_up(old(self).entities@, old(self).resources, overlaps@),
            player_of(old(self).entities@) is None ==> final(self).entities@ == old(self).entities@
                && final(self).resources == old(self).resources,
            final(self).spawn_timer == old(self).spawn_timer,
            final(self).catalog == old(self).catalog,
            final(self).handles == old(self).handles,
            final(self).state == old(self).state,
    {
        if self.find_player().is_none() {
            return;
        }
        let mut i: usize = 0;
        while i < overlaps.len()
            invariant
                0 <= i <= overlaps.len(),
                self.wf(),
                (self.entities@, self.resources) == picked_up(old(self).entities@, old(self).resources, overlaps@.subrange(0, i as int)),
                self.spawn_timer == old(self).spawn_timer,
                self.catalog == old(self).catalog,
                self.handles == old(self).handles,
                self.state == old(self).state,
            decreases overlaps.len() - i,
        {
            proof {
                assert(overlaps@.subrange(0, i + 1).drop_last() =~= overlaps@.subrange(0, i as int));
            }
            self.collect(overlaps[i]);
            i = i + 1;
        }
        proof {
            assert(overlaps@.subrange(0, overlaps.len() as int) =~= overlaps@);
        }
    }
}


impl World {
    /// Starts the homing move of each resource that came within
    /// `PICKUP_RANGE` of the player.
    pub fn mark_resource_as_close(&mut self)
        requires
            old(self).wf(),
        ensures
            final(self).wf(),
            final(self).entities@.len() == old(self).entities@.len(),
            match player_position(old(self).entities@) {
                Some(p) => forall|j: int| 0 <= j < old(self).entities@.len() ==> #[trigger] final(self).entities@[j]
                    == lift(old(self).entities@[j], |c: Components| marked_close(c, p)),
                None => final(self).entities@ == old(self).entities@,
            },
            final(self).resources == old(self).resources,
            final(self).spawn_timer == old(self).spawn_timer,
            final(self).catalog == old(self).catalog,
            final(self).handles == old(self).handles,
            final(self).state == old(self).state,
    {
        let player = match self.find_player() {
            Some(i) => match &self.entities[i] {
                Some(pc) => pc.position,
                None => {
                    return;
                },
            },
            None => {
                return;
            },
        };
        let ghost p = player;
        proof {
            assert(in_world(player));
        }
        let n = self.entities.len();
        let mut i: usize = 0;
        while i < n
            invariant
                0 <= i <= n,
                n == old(self).entities@.len(),
                self.wf(),
                self.entities@.len() == n,
                p == player,
                in_world(player),
                player_position(old(self).entities@) == Some(p),
                forall|j: int| 0 <= j < i ==> #[trigger] self.entities@[j]
                    == lift(old(self).entities@[j], |c: Components| marked_close(c, p)),
                forall|j: int| i <= j < n ==> #[trigger] self.entities@[j] == old(self).entities@[j],
                self.resources == old(self).resources,
                self.spawn_timer == old(self).spawn_timer,
                self.catalog == old(self).catalog,
                self.handles == old(self).handles,
                self.state == old(self).state,
            decreases n - i,
        {
            if let Some(c) = self.entities[i] {
                let mut c = c;
                if c.resource.is_some() && c.player.is_none() && c.pickup_tween.is_none() {
                    let d2 = distance_squared(c.position, player);
                    if d2 < (PICKUP_RANGE * PICKUP_RANGE) as u64 {
                        c.pickup_tween = Some(Tween { start: c.position, end: player, duration: PICKUP_TWEEN_MS, elapsed: 0 });
                    }
                }
                self.set_entity(i, c);
            }
            i = i + 1;
        }
    }
    /// Advances homing moves by `dt` milliseconds; a resource whose move
    /// completes starts following the player.
    pub fn mark_resource_as_following(&mut self, dt: u32)
        requires
            old(self).wf(),
        ensures
            final(self).wf(),
            final(self).entities@.len() == old(self).entities@.len(),
            forall|j: int| 0 <= j < old(self).entities@.len() ==> #[trigger] final(self).entities@[j]
                == lift(old(self).entities@[j], |c: Components| tween_advanced(c, dt as int)),
            final(self).resources == old(self).resources,
            final(self).spawn_timer == old(self).spawn_timer,
            final(self).catalog == old(self).catalog,
            final(self).handles == old(self).handles,
            final(self).state == old(self).state,
    {
        let n = self.entities.len();
        let mut i: usize = 0;
        while i < n
            invariant
                0 <= i <= n,
                n == old(self).entities@.len(),
                self.wf(),
                self.entities@.len() == n,
                forall|j: int| 0 <= j < i ==> #[trigger] self.entities@[j]
                    == lift(old(self).entities@[j], |c: Components| tween_advanced(c, dt as int)),
                forall|j: int| i <= j < n ==> #[trigger] self.entities@[j] == old(self).entities@[j],
                self.resources == old(self).resources,
                self.spawn_timer == old(self).spawn_timer,
                self.catalog == old(self).catalog,
                self.handles == old(self).handles,
                self.state == old(self).state,
            decreases n - i,
        {
            if let Some(c) = self.entities[i] {
                let mut c = c;
                if c.resource.is_some() && !c.following_player {
                    if let Some(t) = c.pickup_tween {
                        let el: u32 = if t.elapsed as u64 + dt as u64 >= t.duration as u64 {
                            t.duration
                        } else {
                            t.elapsed + dt
                        };
                        c.pickup_tween = Some(Tween { elapsed: el, ..t });
                        c.position = IVec2 {
                            x: lerp_coord(t.start.x, t.end.x, el, t.duration),
                            y: lerp_coord(t.start.y, t.end.y, el, t.duration),
                        };
                        c.following_player = el == t.duration;
                    }
                }
                self.set_entity(i, c);
            }
            i = i + 1;
        }
    }
    /// Moves following resources toward the player.
    pub fn update_resource_position(&mut self, dt: u32)
        requires
            old(self).wf(),
        ensures
            final(self).wf(),
            final(self).entities@.len() == old(self).entities@.len(),
            match player_position(old(self).entities@) {
                Some(p) => forall|j: int| 0 <= j < old(self).entities@.len() ==> #[trigger] final(self).entities@[j]
                    == lift(old(self).entities@[j], |c: Components| followed(c, p, dt as int)),
                None => final(self).entities@ == old(self).entities@,
            },
            final(self).resources == old(self).resources,
            final(self).spawn_timer == old(self).spawn_timer,
            final(self).catalog == old(self).catalog,
            final(self).handles == old(self).handles,
            final(self).state == old(self).state,
    {
        let player = match self.find_player() {
            Some(i) => match &self.entities[i] {
                Some(pc) => pc.position,
                None => {
                    return;
                },
            },
            None => {
                return;
            },
        };
        let ghost p = player;
        proof {
            assert(in_world(player));
        }
        let n = self.entities.len();
        let mut i: usize = 0;
        while i < n
            invariant
                0 <= i <= n,
                n == old(self).entities@.len(),
                self.wf(),
                self.entities@.len() == n,
                p == player,
                in_world(player),
                player_position(old(self).entities@) == Some(p),
                forall|j: int| 0 <= j < i ==> #[trigger] self.entities@[j]
                    == lift(old(self).entities@[j], |c: Components| followed(c, p, dt as int)),
                forall|j: int| i <= j < n ==> #[trigger] self.entities@[j] == old(self).entities@[j],
                self.resources == old(self).resources,
                self.spawn_timer == old(self).spawn_timer,
                self.catalog == old(self).catalog,
                self.handles == old(self).handles,
                self.state == old(self).state,
            decreases n - i,
        {
            if let Some(c) = self.entities[i] {
                let mut c = c;
                if c.resource.is_some() && c.following_player {
                    assert(FOLLOW_SPEED as u64 * dt as u64 <= u64::MAX) by (nonlinear_arith)
                        requires dt <= u32::MAX;
                    let step: u64 = FOLLOW_SPEED as u64 * dt as u64;
                    c.position = step_toward(c.position, player, step);
                }
                self.set_entity(i, c);
            }
            i = i + 1;
        }
    }
}

} // verus!
