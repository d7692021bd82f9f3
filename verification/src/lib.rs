//! Rooms joined by doors, and the avatar that walks through them.

pub mod avatar;
pub mod dungeon;
pub mod geometry;
pub mod random;
pub mod session;
pub mod types;
