//! Grid movement and obstacle-avoidance core of a 2D top-down tile game.
//!
//! The library holds the game's decision logic as verified code: reducing
//! held keys to a direction, resolving a movement step against a ray-cast
//! oracle with axis-fallback sliding, bookkeeping of active collisions from
//! a start/stop event stream, and parsing an ASCII tile map into tiles and
//! static obstacles. Windowing, rendering, asset loading and the physics
//! engine itself are outside collaborators: their answers (ray-cast hits,
//! key snapshots, frame deltas, collision events) enter as plain values.

pub mod collisions;
pub mod components;
pub mod input;
pub mod movement;
pub mod player;
pub mod tilemap;
pub mod units;
