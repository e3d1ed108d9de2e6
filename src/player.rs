//! The player: setup, keyboard movement with facing, and the orbiting orb.

use vstd::prelude::*;
use crate::common::{UNIT, Health, Speed, IVec2};
use crate::timer::{Timer, TimerMode};
use crate::movement::{MovementDirection, DirectionChanged, KeyInput, classify, direction_event, flip_after, input_vector_spec, player_step_spec, update_direction, flip_for_direction, player_step};
use crate::resources::Resources;
use crate::assets::{AnimationId, AnimationCatalog, GameAssetsHandles, SheetHandle, first_containing, player_animation_name, player_animation};
use crate::world::{lift, no_components, empty_components, EntityId, Components, Player, Collider, Weapon, World, GameState, player_of};

verus! {

pub const PLAYER_SPEED: u32 = 100;
pub const PLAYER_HEALTH: u32 = 100;
pub const PLAYER_COLLIDER_WIDTH: u32 = 30;
pub const PLAYER_COLLIDER_HEIGHT: u32 = 35;
/// Period of the enemy spawner, in milliseconds.
pub const SPAWN_PERIOD_MS: u32 = 50;
/// Distance of the orb from the player's centre, in position units.
pub const ORB_OFFSET: i64 = 70 * UNIT;
pub const ORB_RADIUS: u32 = 10;
pub const ORB_DAMAGE: u32 = 10;
/// Turning speed of the orb, in degrees per second.
pub const ORB_ROTATION_SPEED: u32 = 420;

/// A fresh player at the origin, idle.
pub open spec fn player_bundle(sheet: SheetHandle, idle: AnimationId) -> Components {
    Components {
        player: Some(Player),
        speed: Some(Speed(PLAYER_SPEED)),
        health: Some(Health(PLAYER_HEALTH)),
        direction: Some(MovementDirection::Idle),
        sheet: Some(sheet),
        animation: Some(idle),
        collider: Some(Collider::Rectangle { width: PLAYER_COLLIDER_WIDTH, height: PLAYER_COLLIDER_HEIGHT }),
        ..no_components(IVec2 { x: 0, y: 0 })
    }
}

/// The orb, placed at its offset from the player it circles.
pub open spec fn orb_bundle() -> Components {
    Components {
        weapon: Some(Weapon::Orb { damage: ORB_DAMAGE, rotation_speed: ORB_ROTATION_SPEED }),
        collider: Some(Collider::Circle { radius: ORB_RADIUS }),
        ..no_components(IVec2 { x: ORB_OFFSET, y: 0 })
    }
}

/// The player after one tick of input: facing reclassified from the raw
/// input vector, the sprite mirrored and the running animation switched
/// when the facing changed, and the position advanced. Also the change
/// event, if any.
pub open spec fn player_moved(c: Components, catalog: AnimationCatalog, input: KeyInput, dt: int) -> (Components, Option<DirectionChanged>) {
    let v = input_vector_spec(input);
    let d = classify(v);
    let current = match c.direction {
        Some(x) => x,
        None => MovementDirection::Idle,
    };
    let event = direction_event(current, d);
    let changed = event is Some;
    let c1 = Components {
        direction: Some(d),
        flip_x: if changed { flip_after(d, c.flip_x) } else { c.flip_x },
        animation: if changed && catalog.lookup(player_animation_name(d)) is Some {
            catalog.lookup(player_animation_name(d))
        } else {
            c.animation
        },
        position: match c.speed {
            Some(sp) => player_step_spec(c.position, v, sp, dt),
            None => c.position,
        },
        ..c
    };
    (c1, event)
}

/// The orb turned by its speed over `dt` milliseconds, in thousandths of a
/// degree modulo a full turn.
pub open spec fn rotated(c: Components, dt: int) -> Components {
    match c.weapon {
        Some(Weapon::Orb { rotation_speed, .. }) => Components {
            rotation: ((c.rotation + rotation_speed * dt) % 360_000) as u32,
            ..c
        },
        _ => c,
    }
}

impl World {
    /// A world waiting for its assets: no entities, an empty inventory.
    pub fn new(catalog: AnimationCatalog, handles: GameAssetsHandles) -> (w: World)
        requires
            catalog.wf(),
            handles.wf(),
        ensures
            w.wf(),
            w.entities@.len() == 0,
            forall|k: crate::resources::Resource| #[trigger] w.resources.count(k) == 0,
            w.spawn_timer == (Timer { duration: SPAWN_PERIOD_MS, elapsed: 0, mode: TimerMode::Repeating }),
            w.catalog == catalog,
            w.handles == handles,
            w.state == GameState::AssetLoading,
    {
        World {
            entities: Vec::new(),
            resources: Resources::new(),
            spawn_timer: Timer::new(SPAWN_PERIOD_MS, TimerMode::Repeating),
            catalog,
            handles,
            state: GameState::AssetLoading,
        }
    }

    /// Creates the player when its sprite sheet and idle animation are there.
    pub fn spawn_player(&mut self) -> (id: Option<EntityId>)
        requires
            old(self).wf(),
        ensures
            final(self).wf(),
            match (first_containing(old(self).handles.characters_sheets@, "cleric"@), old(self).catalog.lookup("player_idle"@)) {
                (Some(sheet), Some(idle)) => id == Some(old(self).entities.len())
                    && final(self).entities@ == old(self).entities@.push(Some(player_bundle(sheet, idle))),
                _ => id is None && final(self).entities@ == old(self).entities@,
            },
            final(self).resources == old(self).resources,
            final(self).spawn_timer == old(self).spawn_timer,
            final(self).catalog == old(self).catalog,
            final(self).handles == old(self).handles,
            final(self).state == old(self).state,
    {
        let sheet = self.handles.get_character_sheet_handle("cleric");
        match (sheet, self.catalog.find("player_idle")) {
            (Some(sheet), Some(idle)) => {
                let c = Components {
                    player: Some(Player),
                    speed: Some(Speed(PLAYER_SPEED)),
                    health: Some(Health(PLAYER_HEALTH)),
                    direction: Some(MovementDirection::Idle),
                    sheet: Some(sheet),
                    animation: Some(idle),
                    collider: Some(Collider::Rectangle { width: PLAYER_COLLIDER_WIDTH, height: PLAYER_COLLIDER_HEIGHT }),
                    ..empty_components(IVec2 { x: 0, y: 0 })
                };
                Some(self.spawn(c))
            },
            _ => None,
        }
    }

    /// Gives the player its orb, as a child that goes with it.
    pub fn spawn_orb(&mut self) -> (id: Option<EntityId>)
        requires
            old(self).wf(),
        ensures
            final(self).wf(),
            match player_of(old(self).entities@) {
                Some(p) => id == Some(old(self).entities.len())
                    && final(self).entities@ == old(self).entities@.push(Some(Components { parent: Some(p as usize), ..orb_bundle() })),
                None => id is None && final(self).entities@ == old(self).entities@,
            },
            final(self).resources == old(self).resources,
            final(self).spawn_timer == old(self).spawn_timer,
            final(self).catalog == old(self).catalog,
            final(self).handles == old(self).handles,
            final(self).state == old(self).state,
    {
        match self.find_player() {
            Some(p) => {
                let orb = Components {
                    weapon: Some(Weapon::Orb { damage: ORB_DAMAGE, rotation_speed: ORB_ROTATION_SPEED }),
                    collider: Some(Collider::Circle { radius: ORB_RADIUS }),
                    ..empty_components(IVec2 { x: ORB_OFFSET, y: 0 })
                };
                self.spawn_child(p, orb)
            },
            None => None,
        }
    }

    /// Leaves the loading state: the player is created, then its orb.
    pub fn finish_loading(&mut self)
        requires
            old(self).wf(),
        ensures
            final(self).wf(),
            old(self).state == GameState::AssetLoading ==> final(self).state == GameState::Next
                && final(self).entities@ == with_orb(with_player(old(self).entities@, old(self).handles, old(self).catalog)),
            old(self).state == GameState::AssetLoading && player_of(old(self).entities@) is None ==> match (
                first_containing(old(self).handles.characters_sheets@, "cleric"@),
                old(self).catalog.lookup("player_idle"@),
            ) {
                (Some(sheet), Some(idle)) => final(self).entities@ == old(self).entities@.push(Some(player_bundle(sheet, idle)))
                    .push(Some(Components { parent: Some(old(self).entities.len()), ..orb_bundle() })),
                _ => final(self).entities@ == old(self).entities@,
            },
            old(self).state == GameState::Next ==> final(self).entities@ == old(self).entities@
                && final(self).state == GameState::Next,
            final(self).resources == old(self).resources,
            final(self).spawn_timer == old(self).spawn_timer,
            final(self).catalog == old(self).catalog,
            final(self).handles == old(self).handles,
    {
        if self.state == GameState::Next {
            return;
        }
        self.state = GameState::Next;
        let ghost before = self.entities@;
        self.spawn_player();
        self.spawn_orb();
        proof {
            if player_of(before) is None {
                if let (Some(sheet), Some(idle)) = (
                    first_containing(self.handles.characters_sheets@, "cleric"@),
                    self.catalog.lookup("player_idle"@),
                ) {
                    lemma_player_of_push(before, player_bundle(sheet, idle));
                }
            }
        }
    }

    /// One tick of keyboard movement for the player. Returns the facing
    /// change, which the player's own handlers have already seen. Nothing
    /// happens without a player.
    pub fn move_player(&mut self, input: KeyInput, dt: u32) -> (event: Option<DirectionChanged>)
        requires
            old(self).wf(),
        ensures
            final(self).wf(),
            match player_of(old(self).entities@) {
                Some(p) => {
                    let (c, ev) = player_moved(old(self).entities@[p]->0, old(self).catalog, input, dt as int);
                    event == ev && final(self).entities@ == old(self).entities@.update(p, Some(c))
                },
                None => event is None && final(self).entities@ == old(self).entities@,
            },
            final(self).resources == old(self).resources,
            final(self).spawn_timer == old(self).spawn_timer,
            final(self).catalog == old(self).catalog,
            final(self).handles == old(self).handles,
            final(self).state == old(self).state,
    {
        let p = match self.find_player() {
            Some(p) => p,
            None => {
                return None;
            },
        };
        let mut c = match self.entities[p] {
            Some(c) => c,
            None => {
                return None;
            },
        };
        let v = input.direction();
        let d = MovementDirection::from_vec2(v);
        let mut current = match c.direction {
            Some(x) => x,
            None => MovementDirection::Idle,
        };
        let event = update_direction(&mut current, d);
        c.direction = Some(current);
        if let Some(ev) = event {
            c.flip_x = flip_for_direction(ev, c.flip_x);
            if let Some(anim) = self.catalog.find(player_animation(d)) {
                c.animation = Some(anim);
            }
        }
        if let Some(sp) = c.speed {
            c.position = player_step(c.position, v, sp, dt);
        }
        self.set_entity(p, c);
        event
    }
}

/// The entities after the player is created, when its sheet and idle
/// animation are there.
pub open spec fn with_player(s: Seq<Option<Components>>, handles: GameAssetsHandles, catalog: AnimationCatalog) -> Seq<Option<Components>> {
    match (first_containing(handles.characters_sheets@, "cleric"@), catalog.lookup("player_idle"@)) {
        (Some(sheet), Some(idle)) => s.push(Some(player_bundle(sheet, idle))),
        _ => s,
    }
}

/// The entities after the player, if there is one, gets its orb.
pub open spec fn with_orb(s: Seq<Option<Components>>) -> Seq<Option<Components>> {
    match player_of(s) {
        Some(p) => s.push(Some(Components { parent: Some(p as usize), ..orb_bundle() })),
        None => s,
    }
}

proof fn lemma_player_of_push(s: Seq<Option<Components>>, c: Components)
    requires
        player_of(s) is None,
        c.player is Some,
    ensures
        player_of(s.push(Some(c))) == Some(s.len() as int),
{
    lemma_player_from_push(s, c, 0);
}

proof fn lemma_player_from_push(s: Seq<Option<Components>>, c: Components, i: int)
    requires
        0 <= i <= s.len(),
        crate::world::player_from(s, i) is None,
        c.player is Some,
    ensures
        crate::world::player_from(s.push(Some(c)), i) == Some(s.len() as int),
    decreases s.len() - i,
{
    if i < s.len() {
        assert(s.push(Some(c))[i] == s[i]);
        lemma_player_from_push(s, c, i + 1);
    } else {
        assert(s.push(Some(c))[i] == Some(c));
    }
}

impl World {
    /// Turns every orb about its parent by its speed over `dt` milliseconds.
    pub fn rotate_orb(&mut self, dt: u32)
        requires
            old(self).wf(),
        ensures
            final(self).wf(),
            final(self).entities@.len() == old(self).entities@.len(),
            forall|j: int| 0 <= j < old(self).entities@.len() ==> #[trigger] final(self).entities@[j]
                == lift(old(self).entities@[j], |c: Components| rotated(c, dt as int)),
            final(self).resources == old(self).resources,
            final(self).spawn_timer == old(self).spawn_timer,
            final(self).catalog == old(self).catalog,
            final(self).handles == old(self).handles,
            final(self).state == old(self).state,
    {
        let n = self.entities.len();
        let mut i: usize = 0;
        while i < n
            invariant
                0 <= i <= n,
                n == old(self).entities@.len(),
                self.wf(),
                self.entities@.len() == n,
                forall|j: int| 0 <= j < i ==> #[trigger] self.entities@[j]
                    == lift(old(self).entities@[j], |c: Components| rotated(c, dt as int)),
                forall|j: int| i <= j < n ==> #[trigger] self.entities@[j] == old(self).entities@[j],
                self.resources == old(self).resources,
                self.spawn_timer == old(self).spawn_timer,
                self.catalog == old(self).catalog,
                self.handles == old(self).handles,
                self.state == old(self).state,
            decreases n - i,
        {
            if let Some(c) = self.entities[i] {
                let mut c = c;
                if let Some(Weapon::Orb { rotation_speed, .. }) = c.weapon {
                    assert(rotation_speed as u64 * dt as u64 <= u64::MAX - 360_000) by (nonlinear_arith)
                        requires rotation_speed <= u32::MAX, dt <= u32::MAX;
                    let turned: u64 = c.rotation as u64 + rotation_speed as u64 * dt as u64;
                    c.rotation = (turned % 360_000) as u32;
                }
                self.set_entity(i, c);
            }
            i = i + 1;
        }
    }
}

} // verus!
