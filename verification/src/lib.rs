//! A small deterministic 2D physics-and-gameplay simulation.
//!
//! Entities with position and velocity move under gravity, collide with
//! static axis-aligned geometry, and resolve penetration by minimum-
//! translation push-out.  A secondary subsystem composes spell projectiles
//! from an ordered sequence of elemental tokens, derives their numeric
//! stats, and fires them as physics entities that expire on collision or
//! range exhaustion.
//!
//! Every length, speed and stat is a signed fixed-point count of
//! `1/FX_ONE` world units (see [`fixed`]), so the whole simulation is
//! exact integer arithmetic and each step is fully specified.

pub mod fixed;
pub mod vector;
pub mod object;
pub mod spells;
pub mod input;
pub mod ticks;
pub mod world;
