//! A small 2-D gravitation simulator with a verified physics kernel.
//!
//! Point masses attract each other with Newtonian gravity and advance by a
//! Stoermer-Verlet position update (current and previous position stand in
//! for an explicit velocity).  Interpenetrating bodies are pushed apart in
//! inverse proportion to mass, and contacts receive an impulse-based
//! velocity correction governed by a restitution coefficient.
//!
//! All physical quantities are fixed-point numbers: an `i128` holding
//! `value * FX_SCALE`.  The arithmetic saturates symmetrically at
//! `i128::MAX` / `-i128::MAX` instead of overflowing; this clamping is an
//! extension over plain real arithmetic and every contract states it
//! explicitly.

pub mod fixed;
pub mod interactions;
pub mod laws;
pub mod sim;
pub mod structs;
pub mod util;
