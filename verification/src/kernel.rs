//! World kernel: the authoritative world state, its logged mutations, the
//! deterministic step, and replay of an event sequence.

pub mod encoding;
pub mod entities;
pub mod laws;
pub mod world;

pub use world::{EntityData, World, WorldEvent};
