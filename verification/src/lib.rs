//! A 2-D cloth simulation: a grid of mass points joined by distance
//! constraints, advanced by Verlet integration, with interactive dragging
//! and tearing.
//!
//! All geometry is carried in fixed-point coordinates: one world length
//! unit is `math::SCALE` ticks. The host layer converts to and from its
//! own representation at the boundary and drives one `Cloth::update` per
//! frame, then reads the segments to draw from `Cloth::draw`.

pub mod cloth;
pub mod laws;
pub mod math;
pub mod point;
pub mod stick;
