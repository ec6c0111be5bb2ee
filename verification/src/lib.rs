//! Core of a small 2D platformer engine: dimensionally-safe time arithmetic,
//! a two-layer tile grid with shared tile descriptors, and a spatial query
//! that maps an axis-aligned rectangle to the grid cells it overlaps.

pub mod collisions;
pub mod map;
pub mod units;
