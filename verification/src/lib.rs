//! Simulation core of a top-down arena shooter on a fixed-point grid.
//!
//! Positions and sizes are whole numbers of milli-units (a thousandth of a
//! world unit), velocities are milli-units per second and time is counted in
//! microseconds, so that every step is exact and repeatable.

pub mod arena;
pub mod budget;
pub mod collision;
pub mod entity;
pub mod firing;
pub mod heading;
pub mod impact;
pub mod level;
pub mod movement;
pub mod projectile;
pub mod ricochet;
pub mod state;
pub mod store;
pub mod vector;
pub mod world;
