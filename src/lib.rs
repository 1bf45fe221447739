//! A per-player profile store: each player's record lives at an address
//! derived from a fixed tag and the player's key, is created once, and is
//! updated only by its owner.
pub mod address;
pub mod laws;
pub mod profile;
pub mod store;
