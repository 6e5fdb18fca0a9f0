//! A small arcade-style arena simulation: a player rectangle moves inside a
//! walled arena, mobile targets bounce diagonally off the walls, targets that
//! touch the player are consumed, and a clock-driven score ticks up.
//!
//! Coordinates and times are fixed-point integers so that every step of the
//! simulation is exact: positions are held in subunits of a world unit
//! (`geometry::SCALE` subunits per unit) and times in microseconds.

pub mod geometry;
pub mod player;
pub mod scheduler;
pub mod scores;
pub mod solids;
pub mod targets;
