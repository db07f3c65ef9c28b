//! A toroidal hexagonal tile map with bounds-checked storage, the
//! integer geometry that converts between world space and axial hex
//! coordinates, and a scheduler that drives any number of independently
//! simulated worlds through an identical, append-only pipeline of steps.

use vstd::prelude::*;

pub mod geometry;
pub mod hexmap;
pub mod simulation;
pub mod surfaces;
pub mod world;

verus! {

/// The ways an operation of this library can fail.
#[derive(Copy, Clone, Debug, PartialEq, Eq, Structural)]
pub enum ErrorKind {
    /// Map construction was handed fewer or more items than `width * height`.
    ItemCountMismatch,
    /// A map access used a coordinate outside `[0, width) x [0, height)`
    /// without wrapping it first.
    OutOfBounds,
    /// A surface index does not name any registered surface.
    NoSuchSurface,
}

} // verus!
