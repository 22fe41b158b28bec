//! Authoritative simulation engine and client synchronisation for a
//! multiplayer arena game.
//!
//! All quantities are integers: lengths in thousandths of a world unit, angles in
//! thousandths of a degree, the boost meter in steps of 1/300, time in ticks of 1/30 s.
//! Server and predicting clients therefore compute bit-identical results.
pub mod geometry;
pub mod model;
pub mod motion;
pub mod trailer;
pub mod tick;
pub mod pending;
mod rng;
pub mod sim;
pub mod session;
pub mod sync;
pub mod laws;
