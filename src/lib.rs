//! A tile-map raycasting renderer in fixed-point arithmetic.
//!
//! Positions are measured in thousandths of a map cell, angles in
//! milliradians. The trigonometry that turns an angle into a direction is
//! left to the caller; everything from a direction onwards (ray marching,
//! collision, shading, compositing) is computed and proved here.
mod fixed;
pub mod map;
pub mod player;
pub mod ray;
pub mod screen;

pub use fixed::{MAX_MAP_SIDE, MAX_SCREEN_SIDE, RAY_STEP, SCALE};
