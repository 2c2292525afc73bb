//! Interaction core of a virtual tabletop.
//!
//! Pieces stand on a ground plane, are selected by clicks and are moved by
//! dragging the pointer. The engine around this crate casts the pointer ray
//! and draws the result; everything in between is decided here: where a ray
//! meets a plane, which pieces a click selects, and where a drag puts a
//! piece.
//!
//! World coordinates are whole numbers of coordinate steps,
//! [`geometry::STEPS_PER_UNIT`] to one world unit, so every result is
//! exact and stated as such.

pub mod drag;
pub mod geometry;
pub mod piece;
pub mod pointer;
pub mod registry;
pub mod selection;
pub mod spawn;
pub mod table;
