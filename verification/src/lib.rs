//! Game rules of a top-down space shooter: the pause and overlay switches,
//! the per-tick counters, the laser pools, enemy hulls and fire control,
//! scoring, and the minimap raster.  Everything that moves in continuous
//! space (positions, velocities, angles, the player's hull and shield) is
//! floating point and is handled by the engine-facing application.

pub mod combat;
pub mod config;
pub mod controls;
pub mod effects;
pub mod enemies;
pub mod hud;
pub mod lasers;
pub mod minimap;
pub mod names;
pub mod roster;
pub mod session;
