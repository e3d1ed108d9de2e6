//! The entity registry: each entity is a slot holding the components attached
//! to it. A slot is emptied on despawn and never reused, so an id held by a
//! late event finds an empty slot instead of another entity.

use vstd::prelude::*;
use crate::common::{Health, Speed, IVec2, in_world, in_player_field};
use crate::timer::Timer;
use crate::movement::MovementDirection;
use crate::resources::{Resource, Resources};
use crate::assets::{AnimationId, AnimationCatalog, GameAssetsHandles, SheetHandle, LayoutHandle};

verus! {

/// Index of an entity's slot.
pub type EntityId = usize;

/// Marks the entity the player controls.
#[derive(Debug, Clone, Copy, PartialEq, Eq, Structural)]
pub struct Player;

/// Marks a hostile entity.
#[derive(Debug, Clone, Copy, PartialEq, Eq, Structural)]
pub struct Enemy;

/// Marks an enemy that has been defeated and waits for its death animation.
#[derive(Debug, Clone, Copy, PartialEq, Eq, Structural)]
pub struct Dying;

/// Marks an entity that the proximity index tracks.
#[derive(Debug, Clone, Copy, PartialEq, Eq, Structural)]
pub struct NearestNeighbour;

/// A collision shape, in world units.
#[derive(Debug, Clone, Copy, PartialEq, Eq, Structural)]
pub enum Collider {
    Rectangle { width: u32, height: u32 },
    Circle { radius: u32 },
}

/// Something that deals damage on contact.
#[derive(Debug, Clone, Copy, PartialEq, Eq, Structural)]
pub enum Weapon {
    /// Circles its parent at `rotation_speed` degrees per second.
    Orb { damage: u32, rotation_speed: u32 },
    Sword,
    Arrow,
}

/// A colour as packed `0xRRGGBBAA`.
#[derive(Debug, Clone, Copy, PartialEq, Eq, Structural)]
pub struct Tint(pub u32);

/// A one-shot straight-line move from `start` to `end`.
#[derive(Debug, Clone, Copy, PartialEq, Eq, Structural)]
pub struct Tween {
    pub start: IVec2,
    pub end: IVec2,
    pub duration: u32,
    pub elapsed: u32,
}

/// The components that can be attached to an entity; absent ones are `None`.
/// What an entity is follows from which of them it has.
#[derive(Debug, Clone, Copy, PartialEq, Eq, Structural)]
pub struct Components {
    pub position: IVec2,
    pub parent: Option<EntityId>,
    pub player: Option<Player>,
    pub enemy: Option<Enemy>,
    pub dying: Option<Dying>,
    pub nearest_neighbour: Option<NearestNeighbour>,
    pub speed: Option<Speed>,
    pub health: Option<Health>,
    pub collider: Option<Collider>,
    pub direction: Option<MovementDirection>,
    pub flip_x: bool,
    pub sheet: Option<SheetHandle>,
    pub layout: Option<LayoutHandle>,
    pub animation: Option<AnimationId>,
    pub death_animation: Option<AnimationId>,
    pub dot_timer: Option<Timer>,
    pub flash_timer: Option<Timer>,
    pub tint: Tint,
    pub old_tint: Option<Tint>,
    pub resource: Option<Resource>,
    /// Present once a resource is close to the player: its homing move.
    pub pickup_tween: Option<Tween>,
    pub following_player: bool,
    pub weapon: Option<Weapon>,
    /// Rotation about the parent, in thousandths of a degree.
    pub rotation: u32,
}

/// The colour of an untinted sprite.
pub const WHITE: u32 = 0xffff_ffff;

/// An entity with only a position and the default tint.
pub open spec fn no_components(position: IVec2) -> Components {
    Components {
        position,
        parent: None,
        player: None,
        enemy: None,
        dying: None,
        nearest_neighbour: None,
        speed: None,
        health: None,
        collider: None,
        direction: None,
        flip_x: false,
        sheet: None,
        layout: None,
        animation: None,
        death_animation: None,
        dot_timer: None,
        flash_timer: None,
        tint: Tint(WHITE),
        old_tint: None,
        resource: None,
        pickup_tween: None,
        following_player: false,
        weapon: None,
        rotation: 0,
    }
}

/// An entity with only a position and the default tint.
pub fn empty_components(position: IVec2) -> (c: Components)
    ensures
        c == no_components(position),
{
    Components {
        position,
        parent: None,
        player: None,
        enemy: None,
        dying: None,
        nearest_neighbour: None,
        speed: None,
        health: None,
        collider: None,
        direction: None,
        flip_x: false,
        sheet: None,
        layout: None,
        animation: None,
        death_animation: None,
        dot_timer: None,
        flash_timer: None,
        tint: Tint(WHITE),
        old_tint: None,
        resource: None,
        pickup_tween: None,
        following_player: false,
        weapon: None,
        rotation: 0,
    }
}

/// Whether the game is still loading its assets or running.
#[derive(Debug, Clone, Copy, PartialEq, Eq, Structural)]
pub enum GameState {
    AssetLoading,
    Next,
}

pub open spec fn tween_wf(t: Tween) -> bool {
    &&& t.duration > 0
    &&& t.elapsed <= t.duration
    &&& in_world(t.start)
    &&& in_world(t.end)
}

/// What must hold of each entity by itself.
pub open spec fn entity_wf(c: Components) -> bool {
    &&& in_world(c.position)
    &&& (c.dot_timer matches Some(t) ==> t.wf())
    &&& (c.flash_timer matches Some(t) ==> t.wf())
    &&& (c.pickup_tween matches Some(t) ==> tween_wf(t))
    &&& c.rotation < 360_000
    &&& (c.player is Some ==> c.enemy is None && c.resource is None && in_player_field(c.position))
    &&& (c.enemy is Some && c.dying is Some ==> c.health is None)
    &&& (c.enemy is Some && c.dying is None && c.health is Some ==> (c.health->0).0 > 0)
}

/// Every live entity is well formed, and a child's parent is alive and was
/// created before it, so no entity can become its own ancestor.
pub open spec fn slots_wf(s: Seq<Option<Components>>) -> bool {
    forall|j: int|
        #![trigger s[j]]
        0 <= j < s.len() && s[j] is Some ==> {
            let c = s[j]->0;
            &&& entity_wf(c)
            &&& (c.parent matches Some(p) ==> p < j && s[p as int] is Some)
        }
}

pub open spec fn alive(s: Seq<Option<Components>>, e: int) -> bool {
    0 <= e < s.len() && s[e] is Some
}

/// `f` applied to a live entity; an empty slot stays empty.
pub open spec fn lift(o: Option<Components>, f: spec_fn(Components) -> Components) -> Option<Components> {
    match o {
        Some(c) => Some(f(c)),
        None => None,
    }
}

/// `j` is `e` or a live descendant of it.
pub open spec fn descends(s: Seq<Option<Components>>, j: int, e: int) -> bool
    decreases j,
{
    if !alive(s, j) || j < 0 {
        false
    } else if j == e {
        true
    } else {
        match s[j]->0.parent {
            Some(p) => if 0 <= p < j {
                descends(s, p as int, e)
            } else {
                false
            },
            None => false,
        }
    }
}

/// The slots after `e` and all its descendants are despawned.
pub open spec fn despawned(s: Seq<Option<Components>>, e: int) -> Seq<Option<Components>> {
    Seq::new(s.len(), |j: int| if descends(s, j, e) { None } else { s[j] })
}

proof fn lemma_descends_after(s: Seq<Option<Components>>, j: int, e: int)
    requires
        descends(s, j, e),
    ensures
        e <= j,
        alive(s, e),
    decreases j,
{
    if j != e {
        let p = s[j]->0.parent->0;
        lemma_descends_after(s, p as int, e);
    }
}

/// The first live entity marked as the player, searching from `i`.
pub open spec fn player_from(s: Seq<Option<Components>>, i: int) -> Option<int>
    decreases s.len() - i,
{
    if i < 0 || i >= s.len() {
        None
    } else if s[i] matches Some(c) && c.player is Some {
        Some(i)
    } else {
        player_from(s, i + 1)
    }
}

pub open spec fn player_of(s: Seq<Option<Components>>) -> Option<int> {
    player_from(s, 0)
}

proof fn lemma_player_from_found(s: Seq<Option<Components>>, i: int)
    requires
        0 <= i,
    ensures
        player_from(s, i) matches Some(p) ==> i <= p < s.len() && s[p] is Some && s[p]->0.player is Some,
    decreases s.len() - i,
{
    if i < s.len() {
        lemma_player_from_found(s, i + 1);
    }
}

/// Player lookups agree on two slot sequences that differ only in what
/// does not make or move a player.
pub proof fn lemma_player_kept(s: Seq<Option<Components>>, t: Seq<Option<Components>>)
    requires
        s.len() == t.len(),
        forall|j: int| 0 <= j < s.len() ==> (#[trigger] t[j] is Some) == (s[j] is Some),
        forall|j: int| 0 <= j < s.len() && s[j] is Some ==> (#[trigger] t[j])->0.player == s[j]->0.player
            && t[j]->0.position == s[j]->0.position,
    ensures
        player_of(t) == player_of(s),
        player_of(s) matches Some(p) ==> t[p]->0.position == s[p]->0.position,
{
    lemma_player_kept_from(s, t, 0);
    lemma_player_from_found(s, 0);
}

proof fn lemma_player_kept_from(s: Seq<Option<Components>>, t: Seq<Option<Components>>, i: int)
    requires
        0 <= i,
        s.len() == t.len(),
        forall|j: int| 0 <= j < s.len() ==> (#[trigger] t[j] is Some) == (s[j] is Some),
        forall|j: int| 0 <= j < s.len() && s[j] is Some ==> (#[trigger] t[j])->0.player == s[j]->0.player
            && t[j]->0.position == s[j]->0.position,
    ensures
        player_from(t, i) == player_from(s, i),
    decreases s.len() - i,
{
    if i < s.len() {
        assert(t[i] is Some == s[i] is Some);
        lemma_player_kept_from(s, t, i + 1);
    }
}

pub struct World {
    pub entities: Vec<Option<Components>>,
    /// The inventory of collected resources.
    pub resources: Resources,
    pub spawn_timer: Timer,
    pub catalog: AnimationCatalog,
    pub handles: GameAssetsHandles,
    pub state: GameState,
}

impl World {
    pub open spec fn slots(&self) -> Seq<Option<Components>> {
        self.entities@
    }

    pub open spec fn wf(&self) -> bool {
        &&& slots_wf(self.entities@)
        &&& self.spawn_timer.wf()
        &&& self.catalog.wf()
        &&& self.handles.wf()
    }

    /// Creates an entity with no parent.
    pub fn spawn(&mut self, c: Components) -> (id: EntityId)
        requires
            old(self).wf(),
            entity_wf(c),
            c.parent is None,
        ensures
            final(self).wf(),
            id == old(self).entities.len(),
            final(self).entities@ == old(self).entities@.push(Some(c)),
            final(self).resources == old(self).resources,
            final(self).spawn_timer == old(self).spawn_timer,
            final(self).catalog == old(self).catalog,
            final(self).handles == old(self).handles,
            final(self).state == old(self).state,
    {
        let id = self.entities.len();
        self.entities.push(Some(c));
        proof {
            assert forall|j: int| 0 <= j < self.entities@.len() && #[trigger] self.entities@[j] is Some implies {
                let c = self.entities@[j]->0;
                &&& entity_wf(c)
                &&& (c.parent matches Some(p) ==> p < j && self.entities@[p as int] is Some)
            } by {
                if j < id {
                    assert(old(self).entities@[j] == self.entities@[j]);
                }
            }
        }
        id
    }

    /// Creates an entity owned by `parent`, which must be alive.
    pub fn spawn_child(&mut self, parent: EntityId, c: Components) -> (id: Option<EntityId>)
        requires
            old(self).wf(),
            entity_wf(c),
        ensures
            final(self).wf(),
            alive(old(self).entities@, parent as int) ==> id == Some(old(self).entities.len())
                && final(self).entities@ == old(self).entities@.push(Some(Components { parent: Some(parent), ..c })),
            !alive(old(self).entities@, parent as int) ==> id is None && final(self).entities@ == old(self).entities@,
            final(self).resources == old(self).resources,
            final(self).spawn_timer == old(self).spawn_timer,
            final(self).catalog == old(self).catalog,
            final(self).handles == old(self).handles,
            final(self).state == old(self).state,
    {
        if parent >= self.entities.len() || self.entities[parent].is_none() {
            return None;
        }
        let id = self.entities.len();
        self.entities.push(Some(Components { parent: Some(parent), ..c }));
        proof {
            assert forall|j: int| 0 <= j < self.entities@.len() && #[trigger] self.entities@[j] is Some implies {
                let c = self.entities@[j]->0;
                &&& entity_wf(c)
                &&& (c.parent matches Some(p) ==> p < j && self.entities@[p as int] is Some)
            } by {
                if j < id {
                    assert(old(self).entities@[j] == self.entities@[j]);
                }
                assert(old(self).entities@[parent as int] == self.entities@[parent as int]);
            }
        }
        Some(id)
    }

    /// Removes `e` and, with it, every entity it owns, directly or not.
    pub fn despawn_recursive(&mut self, e: EntityId)
        requires
            old(self).wf(),
        ensures
            final(self).wf(),
            final(self).entities@ == despawned(old(self).entities@, e as int),
            final(self).resources == old(self).resources,
            final(self).spawn_timer == old(self).spawn_timer,
            final(self).catalog == old(self).catalog,
            final(self).handles == old(self).handles,
            final(self).state == old(self).state,
    {
        let ghost s = self.entities@;
        let n = self.entities.len();
        if e >= n || self.entities[e].is_none() {
            proof {
                assert forall|j: int| 0 <= j < s.len() implies !descends(s, j, e as int) by {
                    if descends(s, j, e as int) {
                        lemma_descends_after(s, j, e as int);
                    }
                }
                assert(self.entities@ =~= despawned(s, e as int));
            }
            return;
        }
        let mut i: usize = e;
        while i < n
            invariant
                e <= i <= n,
                n == s.len(),
                self.entities@.len() == n,
                slots_wf(s),
                alive(s, e as int),
                self.resources == old(self).resources,
                self.spawn_timer == old(self).spawn_timer,
                self.catalog == old(self).catalog,
                self.handles == old(self).handles,
                self.state == old(self).state,
                forall|k: int| 0 <= k < e ==> #[trigger] self.entities@[k] == s[k],
                forall|k: int| i <= k < n ==> #[trigger] self.entities@[k] == s[k],
                forall|k: int| e <= k < i ==> #[trigger] self.entities@[k] == (if descends(s, k, e as int) { None } else { s[k] }),
            decreases n - i,
        {
            let remove = if i == e {
                true
            } else {
                match self.entities[i] {
                    Some(c) => match c.parent {
                        Some(p) => p >= e && p < i && self.entities[p].is_none(),
                        None => false,
                    },
                    None => false,
                }
            };
            proof {
                if i != e && s[i as int] is Some {
                    let c = s[i as int]->0;
                    if let Some(p) = c.parent {
                        assert(p < i && s[p as int] is Some);
                        if p < e {
                            if descends(s, p as int, e as int) {
                                lemma_descends_after(s, p as int, e as int);
                            }
                        }
                    }
                }
                assert(remove == descends(s, i as int, e as int));
            }
            if remove {
                self.entities.set(i, None);
            }
            i = i + 1;
        }
        proof {
            assert forall|k: int| 0 <= k < e implies !descends(s, k, e as int) by {
                if descends(s, k, e as int) {
                    lemma_descends_after(s, k, e as int);
                }
            }
            assert(self.entities@ =~= despawned(s, e as int));
            let t = self.entities@;
            assert forall|j: int| 0 <= j < t.len() && #[trigger] t[j] is Some implies {
                let c = t[j]->0;
                &&& entity_wf(c)
                &&& (c.parent matches Some(p) ==> p < j && t[p as int] is Some)
            } by {
                assert(t[j] == s[j]);
                assert(!descends(s, j, e as int));
                let c = s[j]->0;
                if let Some(p) = c.parent {
                    assert(s[p as int] is Some);
                    if descends(s, p as int, e as int) {
                        assert(descends(s, j, e as int));
                    }
                }
            }
        }
    }

    /// The live entity marked as the player, if any.
    pub fn find_player(&self) -> (r: Option<EntityId>)
        ensures
            r matches Some(p) ==> player_of(self.entities@) == Some(p as int),
            r is None ==> player_of(self.entities@) is None,
            r matches Some(p) ==> alive(self.entities@, p as int) && self.entities@[p as int]->0.player is Some,
    {
        let mut i: usize = 0;
        while i < self.entities.len()
            invariant
                0 <= i <= self.entities.len(),
                player_of(self.entities@) == player_from(self.entities@, i as int),
            decreases self.entities.len() - i,
        {
            if let Some(c) = &self.entities[i] {
                if c.player.is_some() {
                    return Some(i);
                }
            }
            i = i + 1;
        }
        None
    }
}

} // verus!
