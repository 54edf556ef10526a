//! Authoritative state core of a 3D world simulator: a deterministic world
//! kernel whose every mutation is logged as an event, and the persistence
//! logic that snapshots, hashes, chains and replays that state.

pub mod common;
pub mod kernel;
pub mod persist;
pub mod stream;
pub mod text;
pub mod ecs;
pub mod author;
pub mod tools;
pub mod assets;
pub mod input;
pub mod render;
