//! A small verified roguelike core: a fixed 80x50 tile grid with two map
//! generators, an entity store with typed component storages and deferred
//! structural mutation, a movement validator, a demo autonomous system, and
//! a tick driver that turns an input key into moves and emits draw commands
//! for an external renderer.

pub mod components;
pub mod ecs;
pub mod map;
pub mod player;
pub mod rect;
pub mod rng;
pub mod state;
pub mod systems;
