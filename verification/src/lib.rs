//! A fixed-point core for a stealth game played inside a time loop.
//!
//! Guards patrol closed paths keyed to a wrapping clock, a player sneaks past
//! them between walls, and every completed loop leaves behind a ghost that
//! replays the player's recorded route.
//!
//! Every quantity is an integer: lengths count thousandths of a world unit
//! ([`vector::ONE`] per unit), times count milliseconds, and speeds count
//! thousandths of a unit per second. All arithmetic is exact, so the angular
//! and geometric tests below decide precisely what their real-number
//! definitions say.

pub mod action;
pub mod actor;
pub mod fate;
pub mod geometry;
pub mod ghost;
pub mod movement;
pub mod path;
pub mod screen;
pub mod sight;
pub mod stage;
pub mod timeloop;
pub mod vector;
