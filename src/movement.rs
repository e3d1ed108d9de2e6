//! Eight-way facing, keyboard input and player movement.

use vstd::prelude::*;
use crate::common::{IVec2, Speed, in_world, in_player_field, clamp_player, clamp_player_coord};

verus! {

/// The facing of an entity: one of eight sectors, or idle.
#[derive(Debug, Clone, Copy, PartialEq, Eq, Structural)]
pub enum MovementDirection {
    Up,
    UpLeft,
    Left,
    DownLeft,
    Idle,
    Down,
    DownRight,
    Right,
    RightUp,
}

/// Targeted at an entity whose facing changed; carries the new facing.
#[derive(Debug, Clone, Copy, PartialEq, Eq, Structural)]
pub struct DirectionChanged(pub MovementDirection);

/// Which of the four movement keys are held this tick.
#[derive(Debug, Clone, Copy, PartialEq, Eq, Structural)]
pub struct KeyInput {
    pub up: bool,
    pub down: bool,
    pub left: bool,
    pub right: bool,
}

/// The exact sign-pair table: the eight unit vectors name a sector, every
/// other raw vector (zero, or of another magnitude) is idle.
pub open spec fn classify(v: IVec2) -> MovementDirection {
    if v.x == 0 && v.y == 1 {
        MovementDirection::Up
    } else if v.x == -1 && v.y == 1 {
        MovementDirection::UpLeft
    } else if v.x == -1 && v.y == 0 {
        MovementDirection::Left
    } else if v.x == -1 && v.y == -1 {
        MovementDirection::DownLeft
    } else if v.x == 0 && v.y == -1 {
        MovementDirection::Down
    } else if v.x == 1 && v.y == -1 {
        MovementDirection::DownRight
    } else if v.x == 1 && v.y == 0 {
        MovementDirection::Right
    } else if v.x == 1 && v.y == 1 {
        MovementDirection::RightUp
    } else {
        MovementDirection::Idle
    }
}

/// The event that a facing update emits: one exactly when the facing changes.
pub open spec fn direction_event(current: MovementDirection, new: MovementDirection) -> Option<
    DirectionChanged,
> {
    if current != new {
        Some(DirectionChanged(new))
    } else {
        None
    }
}

/// The horizontal mirroring of the sprite after a facing change: left-facing
/// sectors mirror it, right-facing ones restore it, the rest keep it.
pub open spec fn flip_after(d: MovementDirection, flip_x: bool) -> bool {
    match d {
        MovementDirection::DownLeft | MovementDirection::UpLeft | MovementDirection::Left => true,
        MovementDirection::DownRight | MovementDirection::RightUp | MovementDirection::Right => false,
        _ => flip_x,
    }
}

/// Opposite keys cancel on their axis.
pub open spec fn input_vector_spec(input: KeyInput) -> IVec2 {
    IVec2 {
        x: ((if input.right { 1int } else { 0int }) - (if input.left { 1int } else { 0int })) as i64,
        y: ((if input.up { 1int } else { 0int }) - (if input.down { 1int } else { 0int })) as i64,
    }
}

/// Length of one axis of the normalized direction, in thousandths: a
/// diagonal splits the unit length over both axes.
pub open spec fn axis_share(v: IVec2) -> int {
    if v.x != 0 && v.y != 0 {
        707
    } else {
        1000
    }
}

/// Offset in position units along one axis whose raw component is `c` (in
/// -1..=1) after `dt` milliseconds at `speed` units per second, rounded
/// toward zero.
pub open spec fn axis_offset(c: int, share: int, speed: int, dt: int) -> int {
    if c > 0 {
        share * speed * dt / 1000
    } else if c < 0 {
        -(share * speed * dt / 1000)
    } else {
        0
    }
}

/// Where a player at `pos` ends after moving along the raw input vector `v`
/// (components in -1..=1) for `dt` milliseconds, kept within the player's
/// part of the playfield.
pub open spec fn player_step_spec(pos: IVec2, v: IVec2, speed: Speed, dt: int) -> IVec2 {
    IVec2 {
        x: clamp_player(pos.x + axis_offset(v.x as int, axis_share(v), speed.0 as int, dt)),
        y: clamp_player(pos.y + axis_offset(v.y as int, axis_share(v), speed.0 as int, dt)),
    }
}

impl MovementDirection {
    /// Classifies a raw direction vector by exact match; the vector is not
    /// normalized first.
    pub fn from_vec2(direction: IVec2) -> (r: MovementDirection)
        ensures
            r == classify(direction),
    {
        let x = direction.x;
        let y = direction.y;
        if x == 0 && y == 1 {
            MovementDirection::Up
        } else if x == -1 && y == 1 {
            MovementDirection::UpLeft
        } else if x == -1 && y == 0 {
            MovementDirection::Left
        } else if x == -1 && y == -1 {
            MovementDirection::DownLeft
        } else if x == 0 && y == -1 {
            MovementDirection::Down
        } else if x == 1 && y == -1 {
            MovementDirection::DownRight
        } else if x == 1 && y == 0 {
            MovementDirection::Right
        } else if x == 1 && y == 1 {
            MovementDirection::RightUp
        } else {
            MovementDirection::Idle
        }
    }
}

impl KeyInput {
    pub fn direction(&self) -> (v: IVec2)
        ensures
            v == input_vector_spec(*self),
    {
        let mut x: i64 = 0;
        let mut y: i64 = 0;
        if self.right {
            x = x + 1;
        }
        if self.left {
            x = x - 1;
        }
        if self.up {
            y = y + 1;
        }
        if self.down {
            y = y - 1;
        }
        IVec2 { x, y }
    }
}

/// Stores the new facing and returns the change event, if any.
pub fn update_direction(current: &mut MovementDirection, new: MovementDirection) -> (event:
    Option<DirectionChanged>)
    ensures
        *final(current) == new,
        event == direction_event(*old(current), new),
{
    let changed = *current != new;
    *current = new;
    if changed {
        Some(DirectionChanged(new))
    } else {
        None
    }
}

/// Sprite mirroring handler for a facing change.
pub fn flip_for_direction(event: DirectionChanged, flip_x: bool) -> (r: bool)
    ensures
        r == flip_after(event.0, flip_x),
{
    match event.0 {
        MovementDirection::DownLeft | MovementDirection::UpLeft | MovementDirection::Left => true,
        MovementDirection::DownRight | MovementDirection::RightUp | MovementDirection::Right => false,
        _ => flip_x,
    }
}

fn axis_offset_exec(c: i64, share: u64, speed: u32, dt: u32) -> (r: i128)
    requires
        -1 <= c <= 1,
        share <= 1000,
    ensures
        r == axis_offset(c as int, share as int, speed as int, dt as int),
        -100_000_000_000_000_000_000 <= r <= 100_000_000_000_000_000_000,
{
    assert(share * speed <= 1000 * 4_294_967_295) by (nonlinear_arith)
        requires
            share <= 1000,
            speed <= 4_294_967_295,
    ;
    let a: u128 = share as u128 * speed as u128;
    assert(a * dt <= 1000 * 4_294_967_295 * 4_294_967_295) by (nonlinear_arith)
        requires
            a == share * speed,
            share <= 1000,
            speed <= 4_294_967_295,
            dt <= 4_294_967_295,
    ;
    let m: u128 = a * dt as u128 / 1000;
    if c > 0 {
        m as i128
    } else if c < 0 {
        -(m as i128)
    } else {
        0
    }
}

/// Advances a player position along the raw input vector.
pub fn player_step(pos: IVec2, v: IVec2, speed: Speed, dt: u32) -> (r: IVec2)
    requires
        in_world(pos),
        -1 <= v.x <= 1,
        -1 <= v.y <= 1,
    ensures
        r == player_step_spec(pos, v, speed, dt as int),
        in_player_field(r),
{
    let share: u64 = if v.x != 0 && v.y != 0 {
        707
    } else {
        1000
    };
    let ox = axis_offset_exec(v.x, share, speed.0, dt);
    let oy = axis_offset_exec(v.y, share, speed.0, dt);
    IVec2 { x: clamp_player_coord(pos.x as i128 + ox), y: clamp_player_coord(pos.y as i128 + oy) }
}

/// Feeding a facing twice in a row emits nothing the second time, and a
/// facing that differs from the current one emits exactly one event.
pub proof fn lemma_direction_event_once(current: MovementDirection, new: MovementDirection)
    ensures
        direction_event(new, new) is None,
        current != new ==> direction_event(current, new) == Some(DirectionChanged(new)),
        current == new ==> direction_event(current, new) is None,
{
}

} // verus!
