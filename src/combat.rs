//! Damage: collisions with a weapon become hits, hits and periodic damage
//! lower health, and an enemy whose health would reach zero starts dying.

use vstd::prelude::*;
use crate::common::Health;
use crate::timer::{Timer, TimerMode};
use crate::world::{lift, EntityId, Components, Dying, Tint, Weapon, World, alive, entity_wf, slots_wf};

verus! {

/// How long a hit enemy stays tinted, in milliseconds.
pub const FLASH_MS: u32 = 100;

/// The tint of a hit enemy.
pub const FLASH_TINT: u32 = 0xff00_00ff;

/// Damage dealt by each firing of an enemy's periodic damage timer.
pub const DOT_DAMAGE: u32 = 1;

/// Two entities began to overlap.
#[derive(Debug, Clone, Copy, PartialEq, Eq, Structural)]
pub struct CollisionStarted(pub EntityId, pub EntityId);

/// A weapon struck `enemy` for `damage`.
#[derive(Debug, Clone, Copy, PartialEq, Eq, Structural)]
pub struct EnemyHit {
    pub enemy: EntityId,
    pub damage: u32,
}

/// A live, not yet dying enemy that still has health.
pub open spec fn can_take_damage(c: Components) -> bool {
    c.enemy is Some && c.dying is None && c.health is Some
}

/// The dying state: health and collider go, the death animation plays.
pub open spec fn dying_of(c: Components) -> Components {
    Components {
        dying: Some(Dying),
        health: None,
        collider: None,
        animation: if c.death_animation is Some {
            c.death_animation
        } else {
            c.animation
        },
        ..c
    }
}

/// Health lowered by `damage`; damage that would take it to zero or below
/// turns the enemy to dying instead.
pub open spec fn damaged(c: Components, damage: int) -> Components {
    if can_take_damage(c) {
        if damage >= (c.health->0).0 {
            dying_of(c)
        } else {
            Components { health: Some(Health(((c.health->0).0 - damage) as u32)), ..c }
        }
    } else {
        c
    }
}

/// The hit tint, remembering the tint from before the first of overlapping
/// flashes.
pub open spec fn flashed(c: Components) -> Components {
    Components {
        flash_timer: Some(Timer { duration: FLASH_MS, elapsed: 0, mode: TimerMode::Once }),
        old_tint: if c.old_tint is Some {
            c.old_tint
        } else {
            Some(c.tint)
        },
        tint: Tint(FLASH_TINT),
        ..c
    }
}

/// One hit: damage and flash, on an enemy that can take damage.
pub open spec fn hit_applied(c: Components, damage: int) -> Components {
    if can_take_damage(c) {
        flashed(damaged(c, damage))
    } else {
        c
    }
}

pub open spec fn hit_slots(s: Seq<Option<Components>>, h: EnemyHit) -> Seq<Option<Components>> {
    if alive(s, h.enemy as int) {
        s.update(h.enemy as int, Some(hit_applied(s[h.enemy as int]->0, h.damage as int)))
    } else {
        s
    }
}

/// The slots after a sequence of hits, applied in order.
pub open spec fn hits_applied(s: Seq<Option<Components>>, hits: Seq<EnemyHit>) -> Seq<Option<Components>>
    decreases hits.len(),
{
    if hits.len() == 0 {
        s
    } else {
        hit_slots(hits_applied(s, hits.drop_last()), hits.last())
    }
}

/// The damage of the orb weapon on a live entity.
pub open spec fn orb_damage(s: Seq<Option<Components>>, e: int) -> Option<u32> {
    if alive(s, e) {
        match s[e]->0.weapon {
            Some(Weapon::Orb { damage, .. }) => Some(damage),
            _ => None,
        }
    } else {
        None
    }
}

pub open spec fn is_weapon(s: Seq<Option<Components>>, e: int) -> bool {
    alive(s, e) && s[e]->0.weapon is Some
}

/// A live enemy with a collider that is not dying.
pub open spec fn hittable(s: Seq<Option<Components>>, e: int) -> bool {
    alive(s, e) && s[e]->0.enemy is Some && s[e]->0.collider is Some && s[e]->0.dying is None
}

/// The hit that a collision yields: exactly one side is a weapon, it is an
/// orb, and the other side is a hittable enemy.
pub open spec fn hit_of_collision(s: Seq<Option<Components>>, c: CollisionStarted) -> Option<EnemyHit> {
    let (w, t) = if is_weapon(s, c.0 as int) && !is_weapon(s, c.1 as int) {
        (c.0, c.1)
    } else {
        (c.1, c.0)
    };
    if is_weapon(s, w as int) && !is_weapon(s, t as int) && orb_damage(s, w as int) is Some
        && hittable(s, t as int) {
        Some(EnemyHit { enemy: t, damage: orb_damage(s, w as int)->0 })
    } else {
        None
    }
}

pub open spec fn hits_of_collisions(s: Seq<Option<Components>>, cs: Seq<CollisionStarted>) -> Seq<EnemyHit>
    decreases cs.len(),
{
    if cs.len() == 0 {
        Seq::empty()
    } else {
        let rest = hits_of_collisions(s, cs.drop_last());
        match hit_of_collision(s, cs.last()) {
            Some(h) => rest.push(h),
            None => rest,
        }
    }
}

/// Periodic damage after `dt` milliseconds: the timer advances, and each
/// firing deals `DOT_DAMAGE` (the total saturates); damage flashes the
/// enemy, as a hit does.
pub open spec fn dot_ticked(c: Components, dt: int) -> Components {
    if can_take_damage(c) && c.dot_timer is Some {
        let t = c.dot_timer->0;
        let fired = t.fired_spec(dt);
        let c1 = Components { dot_timer: Some(t.ticked_spec(dt)), ..c };
        if fired > 0 {
            let total = if fired * DOT_DAMAGE > u32::MAX {
                u32::MAX as int
            } else {
                fired * DOT_DAMAGE
            };
            flashed(damaged(c1, total))
        } else {
            c1
        }
    } else {
        c
    }
}

/// The hit tint wears off: once the flash timer fires, the remembered tint
/// comes back and both flash components go.
pub open spec fn flash_ticked(c: Components, dt: int) -> Components {
    if c.enemy is Some && c.flash_timer is Some && c.old_tint is Some {
        let t = c.flash_timer->0;
        if t.fired_spec(dt) > 0 {
            Components { tint: c.old_tint->0, flash_timer: None, old_tint: None, ..c }
        } else {
            Components { flash_timer: Some(t.ticked_spec(dt)), ..c }
        }
    } else {
        c
    }
}

/// Puts an enemy into the dying state.
pub(crate) fn make_dying(c: &mut Components)
    requires
        entity_wf(*old(c)),
    ensures
        *final(c) == dying_of(*old(c)),
        entity_wf(*final(c)),
{
    c.dying = Some(Dying);
    c.health = None;
    c.collider = None;
    if c.death_animation.is_some() {
        c.animation = c.death_animation;
    }
}

fn apply_damage(c: &mut Components, damage: u32)
    requires
        entity_wf(*old(c)),
    ensures
        *final(c) == damaged(*old(c), damage as int),
        entity_wf(*final(c)),
{
    if c.enemy.is_some() && c.dying.is_none() {
        if let Some(h) = c.health {
            if damage >= h.0 {
                make_dying(c);
            } else {
                c.health = Some(Health(h.0 - damage));
            }
        }
    }
}

/// Starts the hit tint.
fn flash(c: &mut Components)
    requires
        entity_wf(*old(c)),
    ensures
        *final(c) == flashed(*old(c)),
        entity_wf(*final(c)),
{
    c.flash_timer = Some(Timer::new(FLASH_MS, TimerMode::Once));
    if c.old_tint.is_none() {
        c.old_tint = Some(c.tint);
    }
    c.tint = Tint(FLASH_TINT);
}

impl World {
    /// Turns weapon collisions into hits, in order.
    pub fn detect_collision_with_enemy(&self, collisions: &Vec<CollisionStarted>) -> (hits: Vec<EnemyHit>)
        ensures
            hits@ == hits_of_collisions(self.entities@, collisions@),
    {
        let ghost s = self.entities@;
        let mut hits: Vec<EnemyHit> = Vec::new();
        let mut i: usize = 0;
        while i < collisions.len()
            invariant
                0 <= i <= collisions.len(),
                s == self.entities@,
                hits@ == hits_of_collisions(s, collisions@.subrange(0, i as int)),
            decreases collisions.len() - i,
        {
            let c = collisions[i];
            proof {
                assert(collisions@.subrange(0, i + 1).drop_last() =~= collisions@.subrange(0, i as int));
            }
            if let Some(h) = self.hit_of(c) {
                hits.push(h);
            }
            i = i + 1;
        }
        proof {
            assert(collisions@.subrange(0, collisions.len() as int) =~= collisions@);
        }
        hits
    }

    fn weapon_at(&self, e: EntityId) -> (r: bool)
        ensures
            r == is_weapon(self.entities@, e as int),
    {
        e < self.entities.len() && match &self.entities[e] {
            Some(c) => c.weapon.is_some(),
            None => false,
        }
    }

    fn hit_of(&self, c: CollisionStarted) -> (r: Option<EnemyHit>)
        ensures
            r == hit_of_collision(self.entities@, c),
    {
        let (w, t) = if self.weapon_at(c.0) && !self.weapon_at(c.1) {
            (c.0, c.1)
        } else {
            (c.1, c.0)
        };
        if !self.weapon_at(w) || self.weapon_at(t) {
            return None;
        }
        let damage = match &self.entities[w] {
            Some(wc) => match wc.weapon {
                Some(Weapon::Orb { damage, .. }) => damage,
                _ => {
                    return None;
                },
            },
            None => {
                return None;
            },
        };
        if t < self.entities.len() {
            if let Some(tc) = &self.entities[t] {
                if tc.enemy.is_some() && tc.collider.is_some() && tc.dying.is_none() {
                    return Some(EnemyHit { enemy: t, damage });
                }
            }
        }
        None
    }

    /// Applies hits in order: each lowers the target's health, or turns it to
    /// dying, and tints it for a moment. Hits on entities that are gone or
    /// cannot take damage are dropped.
    pub fn deal_damage_to_enemy(&mut self, hits: &Vec<EnemyHit>)
        requires
            old(self).wf(),
        ensures
            final(self).wf(),
            final(self).entities@ == hits_applied(old(self).entities@, hits@),
            final(self).resources == old(self).resources,
            final(self).spawn_timer == old(self).spawn_timer,
            final(self).catalog == old(self).catalog,
            final(self).handles == old(self).handles,
            final(self).state == old(self).state,
    {
        let mut i: usize = 0;
        while i < hits.len()
            invariant
                0 <= i <= hits.len(),
                self.wf(),
                self.entities@ == hits_applied(old(self).entities@, hits@.subrange(0, i as int)),
                self.resources == old(self).resources,
                self.spawn_timer == old(self).spawn_timer,
                self.catalog == old(self).catalog,
                self.handles == old(self).handles,
                self.state == old(self).state,
            decreases hits.len() - i,
        {
            let h = hits[i];
            proof {
                assert(hits@.subrange(0, i + 1).drop_last() =~= hits@.subrange(0, i as int));
            }
            self.apply_hit(h);
            i = i + 1;
        }
        proof {
            assert(hits@.subrange(0, hits.len() as int) =~= hits@);
        }
    }

    fn apply_hit(&mut self, h: EnemyHit)
        requires
            old(self).wf(),
        ensures
            final(self).wf(),
            final(self).entities@ == hit_slots(old(self).entities@, h),
            final(self).resources == old(self).resources,
            final(self).spawn_timer == old(self).spawn_timer,
            final(self).catalog == old(self).catalog,
            final(self).handles == old(self).handles,
            final(self).state == old(self).state,
    {
        if h.enemy >= self.entities.len() {
            return;
        }
        match self.entities[h.enemy] {
            Some(c) => {
                let mut c = c;
                if c.enemy.is_some() && c.dying.is_none() && c.health.is_some() {
                    apply_damage(&mut c, h.damage);
                    flash(&mut c);
                }
                self.set_entity(h.enemy, c);
            },
            None => {},
        }
    }

    /// Replaces a live entity's components, keeping its parent.
    pub(crate) fn set_entity(&mut self, e: EntityId, c: Components)
        requires
            old(self).wf(),
            alive(old(self).entities@, e as int),
            entity_wf(c),
            c.parent == old(self).entities@[e as int]->0.parent,
        ensures
            final(self).wf(),
            final(self).entities@ == old(self).entities@.update(e as int, Some(c)),
            final(self).resources == old(self).resources,
            final(self).spawn_timer == old(self).spawn_timer,
            final(self).catalog == old(self).catalog,
            final(self).handles == old(self).handles,
            final(self).state == old(self).state,
    {
        let ghost s = self.entities@;
        self.entities.set(e, Some(c));
        proof {
            let t = self.entities@;
            assert forall|j: int| 0 <= j < t.len() && #[trigger] t[j] is Some implies {
                let d = t[j]->0;
                &&& entity_wf(d)
                &&& (d.parent matches Some(p) ==> p < j && t[p as int] is Some)
            } by {
                assert(s[j] is Some);
                if let Some(p) = s[j]->0.parent {
                    assert(s[p as int] is Some);
                }
            }
        }
    }

    /// Advances every enemy's periodic damage by `dt` milliseconds.
    pub fn tick_damage_over_time(&mut self, dt: u32)
        requires
            old(self).wf(),
        ensures
            final(self).wf(),
            final(self).entities@.len() == old(self).entities@.len(),
            forall|j: int| 0 <= j < old(self).entities@.len() ==> #[trigger] final(self).entities@[j]
                == lift(old(self).entities@[j], |c: Components| dot_ticked(c, dt as int)),
            final(self).resources == old(self).resources,
            final(self).spawn_timer == old(self).spawn_timer,
            final(self).catalog == old(self).catalog,
            final(self).handles == old(self).handles,
            final(self).state == old(self).state,
    {
        let n = self.entities.len();
        let mut i: usize = 0;
        while i < n
            invariant
                0 <= i <= n,
                n == old(self).entities@.len(),
                self.wf(),
                self.entities@.len() == n,
                forall|j: int| 0 <= j < i ==> #[trigger] self.entities@[j]
                    == lift(old(self).entities@[j], |c: Components| dot_ticked(c, dt as int)),
                forall|j: int| i <= j < n ==> #[trigger] self.entities@[j] == old(self).entities@[j],
                self.resources == old(self).resources,
                self.spawn_timer == old(self).spawn_timer,
                self.catalog == old(self).catalog,
                self.handles == old(self).handles,
                self.state == old(self).state,
            decreases n - i,
        {
            if let Some(c) = self.entities[i] {
                let mut c = c;
                if c.enemy.is_some() && c.dying.is_none() && c.health.is_some() {
                    if let Some(t) = c.dot_timer {
                        let mut t = t;
                        let fired = t.tick(dt);
                        c.dot_timer = Some(t);
                        if fired > 0 {
                            let total: u32 = if fired > (u32::MAX / DOT_DAMAGE) as u64 {
                                u32::MAX
                            } else {
                                (fired as u32) * DOT_DAMAGE
                            };
                            apply_damage(&mut c, total);
                            flash(&mut c);
                        }
                    }
                }
                self.set_entity(i, c);
            }
            i = i + 1;
        }
    }

    /// Restores the tint of enemies whose flash has run out.
    pub fn change_color_to_normal(&mut self, dt: u32)
        requires
            old(self).wf(),
        ensures
            final(self).wf(),
            final(self).entities@.len() == old(self).entities@.len(),
            forall|j: int| 0 <= j < old(self).entities@.len() ==> #[trigger] final(self).entities@[j]
                == lift(old(self).entities@[j], |c: Components| flash_ticked(c, dt as int)),
            final(self).resources == old(self).resources,
            final(self).spawn_timer == old(self).spawn_timer,
            final(self).catalog == old(self).catalog,
            final(self).handles == old(self).handles,
            final(self).state == old(self).state,
    {
        let n = self.entities.len();
        let mut i: usize = 0;
        while i < n
            invariant
                0 <= i <= n,
                n == old(self).entities@.len(),
                self.wf(),
                self.entities@.len() == n,
                forall|j: int| 0 <= j < i ==> #[trigger] self.entities@[j]
                    == lift(old(self).entities@[j], |c: Components| flash_ticked(c, dt as int)),
                forall|j: int| i <= j < n ==> #[trigger] self.entities@[j] == old(self).entities@[j],
                self.resources == old(self).resources,
                self.spawn_timer == old(self).spawn_timer,
                self.catalog == old(self).catalog,
                self.handles == old(self).handles,
                self.state == old(self).state,
            decreases n - i,
        {
            if let Some(c) = self.entities[i] {
                let mut c = c;
                if c.enemy.is_some() && c.old_tint.is_some() {
                    if let Some(t) = c.flash_timer {
                        let mut t = t;
                        let fired = t.tick(dt);
                        if fired > 0 {
                            c.tint = c.old_tint.unwrap();
                            c.flash_timer = None;
                            c.old_tint = None;
                        } else {
                            c.flash_timer = Some(t);
                        }
                    }
                }
                self.set_entity(i, c);
            }
            i = i + 1;
        }
    }
}


/// Dying is one-way: no damage, hit, timer or flash brings a dying enemy
/// back, gives it health again, or lets it be hit.
pub proof fn lemma_dying_is_final(c: Components, damage: int, dt: int)
    requires
        c.dying is Some,
        c.health is None,
    ensures
        damaged(c, damage) == c,
        hit_applied(c, damage) == c,
        dot_ticked(c, dt) == c,
        flash_ticked(c, dt).dying is Some,
        flash_ticked(c, dt).health is None,
        !can_take_damage(c),
{
}

/// Damage never leaves a stored health at zero: an enemy that can take
/// damage either keeps a positive health or is dying with none stored.
/// Damage at least equal to its health always makes it dying.
pub proof fn lemma_health_clamps_to_dying(c: Components, damage: int)
    requires
        can_take_damage(c),
        (c.health->0).0 > 0,
        damage >= 0,
    ensures
        damaged(c, damage).dying is None ==> (damaged(c, damage).health->0).0 > 0,
        damaged(c, damage).dying is Some ==> damaged(c, damage).health is None,
        damage >= (c.health->0).0 ==> damaged(c, damage).dying is Some && damaged(c, damage).collider is None,
{
}

/// No enemy is seen alive with a health of zero, and a dying one stores no
/// health.
pub open spec fn health_consistent(s: Seq<Option<Components>>) -> bool {
    forall|j: int|
        #![trigger s[j]]
        0 <= j < s.len() && s[j] is Some && s[j]->0.enemy is Some ==> {
            let c = s[j]->0;
            &&& (c.dying is Some ==> c.health is None)
            &&& (c.dying is None && c.health is Some ==> (c.health->0).0 > 0)
        }
}

/// The enemy in slot `j` after the hits is the one before them: still an
/// enemy, and if it is not dying now it was not before, and any health it
/// stores is no greater than the health it stored.
pub open spec fn health_not_raised(s: Seq<Option<Components>>, t: Seq<Option<Components>>, j: int) -> bool {
    0 <= j < s.len() && s[j] is Some && s[j]->0.enemy is Some ==> {
        &&& t[j] is Some && t[j]->0.enemy is Some
        &&& (t[j]->0.dying is None ==> s[j]->0.dying is None
            && (t[j]->0.health matches Some(h) ==> s[j]->0.health matches Some(h0) && h.0 <= h0.0))
    }
}

/// Any batch of hits, applied in order to valid entities, leaves every enemy
/// either dying with no health stored, or not dying with a positive health
/// no greater than before: no enemy is ever seen alive at zero health.
pub proof fn lemma_hits_keep_health_consistent(s: Seq<Option<Components>>, hits: Seq<EnemyHit>)
    requires
        slots_wf(s),
    ensures
        hits_applied(s, hits).len() == s.len(),
        health_consistent(hits_applied(s, hits)),
        forall|j: int| #[trigger] health_not_raised(s, hits_applied(s, hits), j),
{
    assert forall|j: int| 0 <= j < s.len() && s[j] is Some && s[j]->0.enemy is Some implies {
        let c = s[j]->0;
        &&& (c.dying is Some ==> c.health is None)
        &&& (c.dying is None && c.health is Some ==> (c.health->0).0 > 0)
    } by {
        assert(entity_wf(s[j]->0));
    }
    lemma_hits_keep_health(s, hits);
}

proof fn lemma_hits_keep_health(s: Seq<Option<Components>>, hits: Seq<EnemyHit>)
    requires
        health_consistent(s),
    ensures
        hits_applied(s, hits).len() == s.len(),
        health_consistent(hits_applied(s, hits)),
        forall|j: int| #[trigger] health_not_raised(s, hits_applied(s, hits), j),
    decreases hits.len(),
{
    if hits.len() == 0 {
        assert forall|j: int| #[trigger] health_not_raised(s, hits_applied(s, hits), j) by {}
    } else {
        let prev = hits_applied(s, hits.drop_last());
        lemma_hits_keep_health(s, hits.drop_last());
        let h = hits.last();
        let t = hit_slots(prev, h);
        assert forall|j: int| 0 <= j < t.len() && t[j] is Some && t[j]->0.enemy is Some implies {
            let c = t[j]->0;
            &&& (c.dying is Some ==> c.health is None)
            &&& (c.dying is None && c.health is Some ==> (c.health->0).0 > 0)
        } by {
            assert(prev[j] is Some);
        }
        assert forall|j: int| #[trigger] health_not_raised(s, t, j) by {
            assert(health_not_raised(s, prev, j));
        }
    }
}

} // verus!
