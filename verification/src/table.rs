//! The table: the ground and the pieces on it.

use crate::geometry::Vec3;
use crate::registry::PieceRegistry;
use vstd::prelude::*;

verus! {

/// The surface that the cursor is projected on: the plane through `point`
/// with normal `normal`.
#[derive(Clone, Copy, Debug, PartialEq, Eq, Structural)]
pub struct GroundPlane {
    pub point: Vec3,
    pub normal: Vec3,
}

impl GroundPlane {
    /// The plane is horizontal: its normal is vertical.
    pub open spec fn is_level(self) -> bool {
        self.normal.x == 0 && self.normal.z == 0 && self.normal.y != 0
    }

    /// The horizontal plane at `height`.
    pub fn level(height: i32) -> (ground: GroundPlane)
        ensures
            ground.is_level(),
            ground.point == (Vec3 { x: 0, y: height, z: 0 }),
            ground.normal == (Vec3 { x: 0, y: 1, z: 0 }),
    {
        GroundPlane { point: Vec3 { x: 0, y: height, z: 0 }, normal: Vec3 { x: 0, y: 1, z: 0 } }
    }
}

/// Why an event changed nothing. No event is an error: one that cannot be
/// carried out is skipped, and the table stays as it was.
#[derive(Clone, Copy, Debug, PartialEq, Eq, Structural)]
pub enum Skip {
    /// There is no pointer ray: the cursor is outside the viewport, or the
    /// camera could not cast one.
    InvalidInput,
    /// The ray does not meet the plane, or meets it beyond the world.
    GeometricMiss,
    /// The identifier names no piece on the table.
    MissingTarget,
    /// The piece has no drag anchor: no drag of it has started.
    NotAnchored,
    /// The place asked for is beyond the world.
    OutOfRange,
    /// The spawn modifier is not held.
    ModifierNotHeld,
}

/// The ground and the pieces that stand on it.
pub struct Tabletop {
    pub ground: GroundPlane,
    pub registry: PieceRegistry,
}

impl Tabletop {
    /// An empty table on `ground`.
    pub fn new(ground: GroundPlane) -> (table: Tabletop)
        ensures
            table.ground == ground,
            table.registry@ == Map::<crate::piece::PieceId, crate::piece::PieceView>::empty(),
            table.registry.issued() == 0,
    {
        Tabletop { ground, registry: PieceRegistry::new() }
    }
}

} // verus!
