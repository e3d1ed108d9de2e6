//! Entity lifecycle and event core of a top-down 2D action game: movement and
//! facing, timed enemy spawning, collision-driven damage, animation-gated
//! despawn, resource drops and pickup, all over integer world coordinates.
//!
//! - `common`: shared components and integer geometry
//! - `timer`: countdown timers
//! - `movement`: eight-way facing and player movement
//! - `spawn`: where enemies enter
//! - `resources`: resource kinds, the drop table and the inventory
//! - `assets`: named animations and sprite sheets
//! - `world`: the entity registry
//! - `combat`: hits, health and the dying state
//! - `enemy`: enemy systems and the death handshake
//! - `proximity`: the proximity index
//! - `pickup`: homing and collection of resources
//! - `player`: the player and its orb
//! - `schedule`: one tick of every system in order

pub mod common;
pub mod timer;
pub mod movement;
mod random;
pub mod spawn;
pub mod resources;
pub mod assets;
pub mod world;
pub mod combat;
pub mod enemy;
pub mod pickup;
pub mod player;
pub mod schedule;
pub mod proximity;
