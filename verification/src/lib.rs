//! Authoritative state of a small multiplayer arena.
//!
//! The crate holds the part of a real-time game server that owns the shared
//! world: who is connected, where every player and mob stands, how one
//! simulation step moves them, and what is told to the clients afterwards.
//! Transport, scheduling and the wire codec live with the caller; every
//! function here takes and returns plain values.
//!
//! Coordinates are fixed-point integers (see [`geometry::UNIT`]), so that
//! every rule of the simulation is stated and proved over exact arithmetic.

pub mod ai;
pub mod dice;
pub mod entity;
pub mod geometry;
pub mod ident;
pub mod laws;
pub mod message;
pub mod movement;
pub mod proximity;
pub mod server;
pub mod session;
pub mod snapshot;
pub mod store;
