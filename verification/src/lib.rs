//! A 2D particle-dynamics kernel: point masses move under explicit forces,
//! collide elastically with each other, and bounce off the walls of the unit
//! square.
//!
//! All quantities are fixed-point numbers ([`fx::Fx`]): an `i64` count of
//! units of `1 / SCALE`. Arithmetic on them is exact where the mathematical
//! result lies on that grid, and truncates toward zero where it does not, so
//! every operation has a precise integer-level contract.

pub mod entity;
pub mod fx;
pub mod sim;
pub mod vec2;
