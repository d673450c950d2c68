//! A deterministic 2D soft-body simulation core: point masses joined by
//! distance constraints, advanced tick by tick through an integrator, an
//! iterative Gauss-Seidel-style constraint solver and a boundary resolver,
//! plus a minimal rigid-body impulse model.
//!
//! All quantities are fixed-point integers: a scalar holds a signed count of
//! `1/SCALE` world units, so every tick is an exact integer computation and
//! two runs from equal initial state agree bit for bit.

pub mod boundary;
pub mod fixed;
pub mod integrator;
pub mod laws;
pub mod rigid;
pub mod solver;
pub mod state;
pub mod world;
