//! A flow field that noise keeps turning, and particles that drift along it.
//!
//! The engine works in fixed-point integers (see `fixed`): every step is
//! exact and has a contract. What needs real numbers comes from the caller,
//! as two functions: the noise, which gives an angle for a point in space,
//! and the heading, which gives the direction that belongs to an angle.

pub mod field;
pub mod fixed;
pub mod particle;
pub mod particles;
mod random;
pub mod render;
pub mod simulation;
pub mod vector;
