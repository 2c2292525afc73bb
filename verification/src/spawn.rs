//! Spawning: putting a new piece where the cursor points at the ground.

use crate::geometry::{intersect, lemma_level_hit, plane_hit, Ray, Vec3};
use crate::piece::{fresh_piece, Piece, PieceId, PIECE_REST_HEIGHT};
use crate::table::{GroundPlane, Skip, Tabletop};
use vstd::prelude::*;

verus! {

/// From the point that a piece rests on to the centre of the piece: half
/// the height of a piece, straight up.
pub open spec fn rest_offset() -> Vec3 {
    Vec3 { x: 0, y: PIECE_REST_HEIGHT, z: 0 }
}

/// Where the centre of a piece is that rests on `point`. Nowhere if that is
/// beyond the world.
pub open spec fn resting_place(point: Vec3) -> Option<Vec3> {
    if point@.plus(rest_offset()@).fits() {
        Some(point@.plus(rest_offset()@).narrowed())
    } else {
        None
    }
}

/// What a spawn request comes to: the place of the new piece, or the reason
/// why the request is skipped.
///
/// Nothing is spawned unless the spawn modifier is held, whatever the ray
/// meets.
pub open spec fn spawn_place(ground: GroundPlane, ray: Option<Ray>, modifier_held: bool) -> Result<
    Vec3,
    Skip,
> {
    if !modifier_held {
        Err(Skip::ModifierNotHeld)
    } else if ray is None {
        Err(Skip::InvalidInput)
    } else {
        match plane_hit(ray->0, ground.point, ground.normal) {
            None => Err(Skip::GeometricMiss),
            Some(point) => match resting_place(point) {
                None => Err(Skip::OutOfRange),
                Some(place) => Ok(place),
            },
        }
    }
}

/// On level ground a spawned piece rests on the ground: its centre is half
/// the height of a piece above it.
pub proof fn lemma_spawned_piece_rests_on_level_ground(
    ground: GroundPlane,
    ray: Option<Ray>,
    modifier_held: bool,
)
    requires
        ground.is_level(),
    ensures
        spawn_place(ground, ray, modifier_held) matches Ok(place) ==> place.y == ground.point.y
            + PIECE_REST_HEIGHT,
{
    if spawn_place(ground, ray, modifier_held) is Ok {
        lemma_level_hit(ray->0, ground.point, ground.normal);
    }
}

impl Tabletop {
    /// Puts a new piece on the table so that it rests on `point`, and
    /// returns its identifier.
    ///
    /// The piece heads forward, is not selected, has never been dragged,
    /// slides along its heading when it is, and carries a turret with a
    /// gun. Nothing is spawned if its centre would be beyond the world.
    pub fn spawn_piece(&mut self, point: Vec3) -> (spawned: Option<PieceId>)
        ensures
            (match resting_place(point) {
                Some(place) => {
                    &&& spawned == Some(old(self).registry.issued() as PieceId)
                    &&& !old(self).registry@.dom().contains(spawned->0)
                    &&& final(self).registry@ == old(self).registry@.insert(
                        spawned->0,
                        fresh_piece(place),
                    )
                    &&& final(self).registry.issued() == old(self).registry.issued() + 1
                },
                None => {
                    &&& spawned is None
                    &&& final(self).registry@ == old(self).registry@
                    &&& final(self).registry.issued() == old(self).registry.issued()
                },
            }),
            final(self).ground == old(self).ground,
    {
        match point.checked_add(Vec3 { x: 0, y: PIECE_REST_HEIGHT, z: 0 }) {
            Some(place) => Some(self.registry.insert(Piece::new(place))),
            None => None,
        }
    }

    /// A press on the ground with the pointer ray `ray`, which spawns a
    /// piece where the ray meets the ground if the spawn modifier is held.
    ///
    /// Without the modifier, without a ray, without a meeting point, or
    /// with a place beyond the world, the request is skipped and the table
    /// keeps the pieces it had.
    pub fn try_spawn(&mut self, ray: Option<Ray>, modifier_held: bool) -> (outcome: Result<
        PieceId,
        Skip,
    >)
        ensures
            (match spawn_place(old(self).ground, ray, modifier_held) {
                Ok(place) => {
                    &&& outcome == Ok::<PieceId, Skip>(old(self).registry.issued() as PieceId)
                    &&& !old(self).registry@.dom().contains(outcome->Ok_0)
                    &&& final(self).registry@ == old(self).registry@.insert(
                        outcome->Ok_0,
                        fresh_piece(place),
                    )
                    &&& final(self).registry.issued() == old(self).registry.issued() + 1
                },
                Err(skip) => {
                    &&& outcome == Err::<PieceId, Skip>(skip)
                    &&& final(self).registry@ == old(self).registry@
                    &&& final(self).registry.issued() == old(self).registry.issued()
                },
            }),
            final(self).ground == old(self).ground,
    {
        if !modifier_held {
            return Err(Skip::ModifierNotHeld);
        }
        let ray = match ray {
            Some(ray) => ray,
            None => {
                return Err(Skip::InvalidInput);
            },
        };
        let point = match intersect(ray, self.ground.point, self.ground.normal) {
            Some(point) => point,
            None => {
                return Err(Skip::GeometricMiss);
            },
        };
        match self.spawn_piece(point) {
            Some(id) => Ok(id),
            None => Err(Skip::OutOfRange),
        }
    }
}

} // verus!
