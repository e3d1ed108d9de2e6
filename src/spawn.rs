//! Where enemies enter: just beyond one edge of the visible window.

use vstd::prelude::*;
use crate::common::{UNIT, MAX_WINDOW_EXTENT, IVec2, in_world, in_player_field};

verus! {

/// Distance beyond the window edge at which enemies appear, in position
/// units.
pub const SPAWN_MARGIN: i64 = 30 * UNIT;

/// Size of the visible window in world units; it is centred on the player.
#[derive(Debug, Clone, Copy, PartialEq, Eq, Structural)]
pub struct WindowSize {
    pub width: u32,
    pub height: u32,
}

/// The edge of the window beyond which an enemy appears.
#[derive(Debug, Clone, Copy, PartialEq, Eq, Structural)]
pub enum SpawnDirection {
    North,
    South,
    West,
    East,
}

/// Picks an edge from a uniform draw in `0..=3`; larger draws pick the west.
pub open spec fn direction_of_draw(draw: int) -> SpawnDirection {
    if draw == 0 {
        SpawnDirection::East
    } else if draw == 1 {
        SpawnDirection::North
    } else if draw == 2 {
        SpawnDirection::South
    } else {
        SpawnDirection::West
    }
}

/// Half of a window extent, in position units.
pub open spec fn half_extent(extent: int) -> int {
    extent * UNIT / 2
}

/// The fixed coordinate of a spawn point: beyond the edge, on the axis that
/// crosses it.
pub open spec fn edge_coordinate(dir: SpawnDirection, window: WindowSize, player: IVec2) -> int {
    match dir {
        SpawnDirection::West => player.x - half_extent(window.width as int) - SPAWN_MARGIN,
        SpawnDirection::East => player.x + half_extent(window.width as int) + SPAWN_MARGIN,
        SpawnDirection::South => player.y - half_extent(window.height as int) - SPAWN_MARGIN,
        SpawnDirection::North => player.y + half_extent(window.height as int) + SPAWN_MARGIN,
    }
}

/// The window's extent along the edge: the range of the other coordinate.
pub open spec fn along_range(dir: SpawnDirection, window: WindowSize, player: IVec2) -> (int, int) {
    match dir {
        SpawnDirection::West | SpawnDirection::East => (
            player.y - half_extent(window.height as int),
            player.y + half_extent(window.height as int),
        ),
        SpawnDirection::South | SpawnDirection::North => (
            player.x - half_extent(window.width as int),
            player.x + half_extent(window.width as int),
        ),
    }
}

/// The spawn point for an edge, with `along` (the draw for the other
/// coordinate) limited to the window's extent.
pub open spec fn spawn_point_spec(
    dir: SpawnDirection,
    window: WindowSize,
    player: IVec2,
    along: int,
) -> IVec2 {
    let (lo, hi) = along_range(dir, window, player);
    let a = if along < lo {
        lo
    } else if along > hi {
        hi
    } else {
        along
    };
    let e = edge_coordinate(dir, window, player);
    match dir {
        SpawnDirection::West | SpawnDirection::East => IVec2 { x: e as i64, y: a as i64 },
        SpawnDirection::South | SpawnDirection::North => IVec2 { x: a as i64, y: e as i64 },
    }
}

impl WindowSize {
    /// No side is longer than `MAX_WINDOW_EXTENT`.
    pub open spec fn wf(&self) -> bool {
        self.width <= MAX_WINDOW_EXTENT && self.height <= MAX_WINDOW_EXTENT
    }
}

impl SpawnDirection {
    /// Maps a uniform draw in `0..=3` to an edge.
    pub fn from_draw(draw: i64) -> (r: SpawnDirection)
        ensures
            r == direction_of_draw(draw as int),
    {
        if draw == 0 {
            SpawnDirection::East
        } else if draw == 1 {
            SpawnDirection::North
        } else if draw == 2 {
            SpawnDirection::South
        } else {
            SpawnDirection::West
        }
    }

    /// The x coordinate of a spawn point, fixed for the west and east edges.
    pub fn calculate_x(&self, window: &WindowSize, player: &IVec2) -> (r: Option<i64>)
        requires
            in_world(*player),
        ensures
            match *self {
                SpawnDirection::West | SpawnDirection::East => r == Some(
                    edge_coordinate(*self, *window, *player) as i64,
                ),
                _ => r is None,
            },
    {
        let half: i64 = window.width as i64 * UNIT / 2;
        match self {
            SpawnDirection::West => Some(player.x - half - SPAWN_MARGIN),
            SpawnDirection::East => Some(player.x + half + SPAWN_MARGIN),
            _ => None,
        }
    }

    /// The y coordinate of a spawn point, fixed for the south and north edges.
    pub fn calculate_y(&self, window: &WindowSize, player: &IVec2) -> (r: Option<i64>)
        requires
            in_world(*player),
        ensures
            match *self {
                SpawnDirection::South | SpawnDirection::North => r == Some(
                    edge_coordinate(*self, *window, *player) as i64,
                ),
                _ => r is None,
            },
    {
        let half: i64 = window.height as i64 * UNIT / 2;
        match self {
            SpawnDirection::South => Some(player.y - half - SPAWN_MARGIN),
            SpawnDirection::North => Some(player.y + half + SPAWN_MARGIN),
            _ => None,
        }
    }

    /// The range from which the coordinate along the edge is drawn.
    pub fn along_bounds(&self, window: &WindowSize, player: &IVec2) -> (r: (i64, i64))
        requires
            in_world(*player),
        ensures
            r.0 == along_range(*self, *window, *player).0,
            r.1 == along_range(*self, *window, *player).1,
            r.0 <= r.1,
    {
        match self {
            SpawnDirection::West | SpawnDirection::East => {
                let h: i64 = window.height as i64 * UNIT / 2;
                (player.y - h, player.y + h)
            },
            _ => {
                let h: i64 = window.width as i64 * UNIT / 2;
                (player.x - h, player.x + h)
            },
        }
    }

    /// The spawn point on this edge for a drawn coordinate along it.
    pub fn spawn_point(&self, window: &WindowSize, player: &IVec2, along: i64) -> (r: IVec2)
        requires
            in_player_field(*player),
            window.wf(),
        ensures
            r == spawn_point_spec(*self, *window, *player, along as int),
            in_world(r),
    {
        let (lo, hi) = self.along_bounds(window, player);
        let a: i64 = if along < lo {
            lo
        } else if along > hi {
            hi
        } else {
            along
        };
        match self.calculate_x(window, player) {
            Some(x) => IVec2 { x, y: a },
            None => {
                let y = self.calculate_y(window, player);
                match y {
                    Some(y) => IVec2 { x: a, y },
                    None => {
                        proof {
                            assert(false);
                        }
                        *player
                    },
                }
            },
        }
    }
}

/// `p` lies beyond the edge `dir` of the window around `player`: past the
/// west edge it is at least the margin left of the window, with its y within
/// the window's height; likewise for the other three edges.
pub open spec fn offscreen(dir: SpawnDirection, window: WindowSize, player: IVec2, p: IVec2) -> bool {
    let hw = half_extent(window.width as int);
    let hh = half_extent(window.height as int);
    match dir {
        SpawnDirection::West => p.x <= player.x - hw - SPAWN_MARGIN && player.y - hh <= p.y <= player.y + hh,
        SpawnDirection::East => p.x >= player.x + hw + SPAWN_MARGIN && player.y - hh <= p.y <= player.y + hh,
        SpawnDirection::South => p.y <= player.y - hh - SPAWN_MARGIN && player.x - hw <= p.x <= player.x + hw,
        SpawnDirection::North => p.y >= player.y + hh + SPAWN_MARGIN && player.x - hw <= p.x <= player.x + hw,
    }
}

/// Every spawn point lies beyond its edge of the window around a player in
/// the player's part of the playfield, and on the playfield.
pub proof fn lemma_spawn_point_offscreen(dir: SpawnDirection, window: WindowSize, player: IVec2, along: int)
    requires
        in_player_field(player),
        window.wf(),
    ensures
        offscreen(dir, window, player, spawn_point_spec(dir, window, player, along)),
        in_world(spawn_point_spec(dir, window, player, along)),
{
}

} // verus!
