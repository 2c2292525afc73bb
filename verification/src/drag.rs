//! Dragging: where a drag gesture starts, and where each move of the
//! pointer puts the piece.

use crate::geometry::{
    displace, dot, dot_of_difference, intersect, lemma_level_hit, plane_hit, Ray, Vec3, Vector,
};
use crate::piece::{Direction, DragAnchor, DragMode, DragSession, PieceId, PieceView};
use crate::table::{GroundPlane, Skip, Tabletop};
use vstd::arithmetic::div_mod::{
    lemma_div_multiples_vanish, lemma_fundamental_div_mod, lemma_mod_bound,
};
use vstd::prelude::*;

verus! {

/// How far the cursor is from where the drag started.
pub open spec fn cursor_delta(anchor: DragAnchor, point: Vec3) -> Vector {
    point@.minus(anchor.cursor_point@)
}

/// Where a free drag puts a piece: as far from where it was as the cursor
/// is from where it started, in `x` and in `z`. The height of the piece
/// stays as it is.
pub open spec fn free_planar_target(translation: Vec3, anchor: DragAnchor, point: Vec3) -> Vector {
    Vector {
        x: anchor.world_position.x + cursor_delta(anchor, point).x,
        y: translation.y as int,
        z: anchor.world_position.z + cursor_delta(anchor, point).z,
    }
}

/// The part of `delta` that lies along `axis`: `axis * dot(delta, axis) /
/// dot(axis, axis)`, each coordinate rounded down. The length of `axis`
/// cancels.
pub open spec fn along_axis(delta: Vector, axis: Vector) -> Vector {
    axis.scaled(delta.dot(axis), axis.dot(axis))
}

/// Where a drag along `axis` puts a piece: where it was, moved by the part
/// of the cursor's way that lies along the axis.
pub open spec fn axis_constrained_target(anchor: DragAnchor, point: Vec3, axis: Vec3) -> Vector {
    anchor.world_position@.plus(along_axis(cursor_delta(anchor, point), axis@))
}

/// Where a drag puts a piece at `translation` that heads along `facing`,
/// when the cursor is at `point`; nowhere if that place is beyond the
/// world.
pub open spec fn drag_target(
    translation: Vec3,
    facing: Vec3,
    mode: DragMode,
    anchor: DragAnchor,
    point: Vec3,
) -> Option<Vec3> {
    let target = match mode {
        DragMode::FreePlanar => free_planar_target(translation, anchor, point),
        DragMode::AxisConstrained => axis_constrained_target(anchor, point, facing),
    };
    if target.fits() {
        Some(target.narrowed())
    } else {
        None
    }
}

/// `piece` with a new drag anchor.
pub open spec fn with_anchor(piece: PieceView, anchor: DragAnchor) -> PieceView {
    PieceView { drag: DragSession { anchor: Some(anchor), mode: piece.drag.mode }, ..piece }
}

/// `piece` at another place.
pub open spec fn moved_to(piece: PieceView, translation: Vec3) -> PieceView {
    PieceView { translation, ..piece }
}

/// What the start of a drag of the piece `id` comes to: the anchor it
/// fixes, or the reason why it is skipped.
///
/// The cursor is projected on the plane through the piece, parallel to the
/// ground.
pub open spec fn drag_start(
    pieces: Map<PieceId, PieceView>,
    ground: GroundPlane,
    id: PieceId,
    ray: Option<Ray>,
) -> Result<DragAnchor, Skip> {
    if ray is None {
        Err(Skip::InvalidInput)
    } else if !pieces.dom().contains(id) {
        Err(Skip::MissingTarget)
    } else {
        match plane_hit(ray->0, pieces[id].translation, ground.normal) {
            Some(point) => Ok(
                DragAnchor { world_position: pieces[id].translation, cursor_point: point },
            ),
            None => Err(Skip::GeometricMiss),
        }
    }
}

/// What a move of the pointer during a drag of the piece `id` comes to:
/// the place it puts the piece, or the reason why it is skipped.
///
/// The cursor is projected on the plane of the drag's start: the one
/// through the place where the piece was then, parallel to the ground.
pub open spec fn drag_move(
    pieces: Map<PieceId, PieceView>,
    ground: GroundPlane,
    id: PieceId,
    ray: Option<Ray>,
) -> Result<Vec3, Skip> {
    if !pieces.dom().contains(id) {
        Err(Skip::MissingTarget)
    } else if ray is None {
        Err(Skip::InvalidInput)
    } else {
        match pieces[id].drag.anchor {
            None => Err(Skip::NotAnchored),
            Some(anchor) => match plane_hit(ray->0, anchor.world_position, ground.normal) {
                None => Err(Skip::GeometricMiss),
                Some(point) => match drag_target(
                    pieces[id].translation,
                    pieces[id].facing,
                    pieces[id].drag.mode,
                    anchor,
                    point,
                ) {
                    None => Err(Skip::OutOfRange),
                    Some(target) => Ok(target),
                },
            },
        }
    }
}

/// One coordinate of a free drag: `from + (point - start)`, where an `i32`
/// can hold it.
fn shifted(from: i32, point: i32, start: i32) -> (to: Option<i32>)
    ensures
        to == (if i32::MIN <= from + (point - start) <= i32::MAX {
            Some((from + (point - start)) as i32)
        } else {
            None
        }),
{
    let to: i64 = from as i64 + (point as i64 - start as i64);
    if -2147483648 <= to && to <= 2147483647 {
        Some(to as i32)
    } else {
        None
    }
}

/// A vector that is not zero has a positive dot product with itself.
proof fn lemma_square_is_positive(v: Vector)
    by (nonlinear_arith)
    requires
        !v.is_zero(),
    ensures
        v.dot(v) > 0,
{
}

/// Where a drag puts a piece at `translation` that heads along `facing`,
/// when the drag started at `anchor` and the cursor is now at `point`.
///
/// A free drag carries the piece with the cursor in `x` and `z`. A drag
/// along the heading moves the piece from where it was by the part of the
/// cursor's way that lies along the heading, and by nothing across it.
/// There is no place if the coordinates would be beyond the world.
pub fn drag_target_position(
    translation: Vec3,
    facing: Direction,
    mode: DragMode,
    anchor: DragAnchor,
    point: Vec3,
) -> (target: Option<Vec3>)
    ensures
        target == drag_target(translation, facing@, mode, anchor, point),
{
    match mode {
        DragMode::FreePlanar => {
            let x = shifted(anchor.world_position.x, point.x, anchor.cursor_point.x);
            let z = shifted(anchor.world_position.z, point.z, anchor.cursor_point.z);
            match (x, z) {
                (Some(x), Some(z)) => Some(Vec3 { x, y: translation.y, z }),
                _ => None,
            }
        },
        DragMode::AxisConstrained => {
            let axis = facing.vector();
            let along = dot_of_difference(point, anchor.cursor_point, axis);
            let length_squared = dot(axis, axis);
            proof {
                lemma_square_is_positive(axis@);
            }
            displace(anchor.world_position, axis, along, length_squared)
        },
    }
}

impl Tabletop {
    /// Starts a drag of the piece `id` with the pointer ray `ray`.
    ///
    /// The piece keeps as its anchor where it is and where the ray meets
    /// the plane through it, parallel to the ground. Without a ray, without
    /// such a piece or without a meeting point the gesture is skipped and
    /// nothing changes.
    pub fn begin_drag(&mut self, id: PieceId, ray: Option<Ray>) -> (outcome: Result<
        DragAnchor,
        Skip,
    >)
        ensures
            outcome == drag_start(old(self).registry@, old(self).ground, id, ray),
            final(self).registry@ == (match outcome {
                Ok(anchor) => old(self).registry@.insert(
                    id,
                    with_anchor(old(self).registry@[id], anchor),
                ),
                Err(_) => old(self).registry@,
            }),
            final(self).registry.issued() == old(self).registry.issued(),
            final(self).ground == old(self).ground,
    {
        let ray = match ray {
            Some(ray) => ray,
            None => {
                return Err(Skip::InvalidInput);
            },
        };
        let translation = match self.registry.piece(id) {
            Some(piece) => piece.translation,
            None => {
                return Err(Skip::MissingTarget);
            },
        };
        match intersect(ray, translation, self.ground.normal) {
            Some(point) => {
                let anchor = DragAnchor { world_position: translation, cursor_point: point };
                self.registry.set_drag_anchor(id, anchor);
                Ok(anchor)
            },
            None => Err(Skip::GeometricMiss),
        }
    }

    /// Moves the piece `id` to where the pointer ray `ray` drags it, and
    /// returns that place.
    ///
    /// Without such a piece, without a ray, without an anchor, without a
    /// meeting point on the plane of the drag's start, or with a place
    /// beyond the world, the move is skipped and nothing changes.
    pub fn update_drag(&mut self, id: PieceId, ray: Option<Ray>) -> (outcome: Result<Vec3, Skip>)
        ensures
            outcome == drag_move(old(self).registry@, old(self).ground, id, ray),
            final(self).registry@ == (match outcome {
                Ok(target) => old(self).registry@.insert(
                    id,
                    moved_to(old(self).registry@[id], target),
                ),
                Err(_) => old(self).registry@,
            }),
            final(self).registry.issued() == old(self).registry.issued(),
            final(self).ground == old(self).ground,
    {
        let (translation, facing, session) = match self.registry.piece(id) {
            Some(piece) => (piece.translation, piece.facing, piece.drag),
            None => {
                return Err(Skip::MissingTarget);
            },
        };
        let ray = match ray {
            Some(ray) => ray,
            None => {
                return Err(Skip::InvalidInput);
            },
        };
        let anchor = match session.anchor {
            Some(anchor) => anchor,
            None => {
                return Err(Skip::NotAnchored);
            },
        };
        let point = match intersect(ray, anchor.world_position, self.ground.normal) {
            Some(point) => point,
            None => {
                return Err(Skip::GeometricMiss);
            },
        };
        match drag_target_position(translation, facing, session.mode, anchor, point) {
            Some(target) => {
                self.registry.set_translation(id, target);
                Ok(target)
            },
            None => Err(Skip::OutOfRange),
        }
    }
}

/// A drag along an axis ignores sideways motion of the cursor: two cursor
/// points that are equally far along the axis put the piece in the same
/// place, however far apart they are across it.
pub proof fn lemma_axis_drag_ignores_sideways_motion(
    anchor: DragAnchor,
    first: Vec3,
    second: Vec3,
    axis: Vec3,
)
    requires
        cursor_delta(anchor, first).dot(axis@) == cursor_delta(anchor, second).dot(axis@),
    ensures
        axis_constrained_target(anchor, first, axis) == axis_constrained_target(
            anchor,
            second,
            axis,
        ),
{
}

/// A drag along an axis never moves the piece across it: in every
/// coordinate in which the axis is zero, the piece stays where the drag
/// found it.
pub proof fn lemma_axis_drag_stays_on_axis(anchor: DragAnchor, point: Vec3, axis: Vec3)
    requires
        !axis@.is_zero(),
    ensures
        axis.x == 0 ==> axis_constrained_target(anchor, point, axis).x == anchor.world_position.x,
        axis.y == 0 ==> axis_constrained_target(anchor, point, axis).y == anchor.world_position.y,
        axis.z == 0 ==> axis_constrained_target(anchor, point, axis).z == anchor.world_position.z,
{
    let length_squared = axis@.dot(axis@);
    lemma_square_is_positive(axis@);
    assert(0int / length_squared == 0) by (nonlinear_arith)
        requires
            length_squared > 0,
    ;
}

/// The place that a drag along an axis finds is the exact projection,
/// rounded down: no coordinate is above it, and none is a whole step below.
pub proof fn lemma_axis_drag_is_projection_rounded_down(delta: Vector, axis: Vector)
    requires
        !axis.is_zero(),
    ensures
        ({
            let moved = along_axis(delta, axis);
            let along = delta.dot(axis);
            let length_squared = axis.dot(axis);
            &&& length_squared * moved.x <= axis.x * along < length_squared * (moved.x + 1)
            &&& length_squared * moved.y <= axis.y * along < length_squared * (moved.y + 1)
            &&& length_squared * moved.z <= axis.z * along < length_squared * (moved.z + 1)
        }),
{
    let along = delta.dot(axis);
    let length_squared = axis.dot(axis);
    lemma_square_is_positive(axis);
    lemma_rounded_down(axis.x * along, length_squared);
    lemma_rounded_down(axis.y * along, length_squared);
    lemma_rounded_down(axis.z * along, length_squared);
}

/// The quotient by a positive number, rounded down, is the largest whole
/// number whose product with the divisor is not above the dividend.
proof fn lemma_rounded_down(a: int, b: int)
    requires
        b > 0,
    ensures
        b * (a / b) <= a < b * (a / b + 1),
{
    lemma_fundamental_div_mod(a, b);
    lemma_mod_bound(a, b);
    assert(b * (a / b + 1) == b * (a / b) + b) by (nonlinear_arith);
}

/// A piece that heads along one of the coordinate axes is moved along that
/// axis by exactly as much as the cursor moved along it, and not at all in
/// the other two coordinates.
pub proof fn lemma_drag_along_coordinate_axis(anchor: DragAnchor, point: Vec3, axis: Vec3)
    ensures
        axis.x != 0 && axis.y == 0 && axis.z == 0 ==> axis_constrained_target(anchor, point, axis)
            == anchor.world_position@.plus(
            (Vector { x: cursor_delta(anchor, point).x, y: 0, z: 0 }),
        ),
        axis.x == 0 && axis.y != 0 && axis.z == 0 ==> axis_constrained_target(anchor, point, axis)
            == anchor.world_position@.plus(
            (Vector { x: 0, y: cursor_delta(anchor, point).y, z: 0 }),
        ),
        axis.x == 0 && axis.y == 0 && axis.z != 0 ==> axis_constrained_target(anchor, point, axis)
            == anchor.world_position@.plus(
            (Vector { x: 0, y: 0, z: cursor_delta(anchor, point).z }),
        ),
{
    let delta = cursor_delta(anchor, point);
    if !axis@.is_zero() {
        lemma_axis_drag_stays_on_axis(anchor, point, axis);
    }
    if axis.x != 0 && axis.y == 0 && axis.z == 0 {
        lemma_scaled_by_own_square(axis.x as int, delta.x, delta.dot(axis@), axis@.dot(axis@));
    }
    if axis.x == 0 && axis.y != 0 && axis.z == 0 {
        lemma_scaled_by_own_square(axis.y as int, delta.y, delta.dot(axis@), axis@.dot(axis@));
    }
    if axis.x == 0 && axis.y == 0 && axis.z != 0 {
        lemma_scaled_by_own_square(axis.z as int, delta.z, delta.dot(axis@), axis@.dot(axis@));
    }
}

/// `k * (d * k) / (k * k)` is `d`.
proof fn lemma_scaled_by_own_square(k: int, d: int, along: int, length_squared: int)
    requires
        k != 0,
        along == d * k,
        length_squared == k * k,
    ensures
        (k * along) / length_squared == d,
{
    assert(k * along == length_squared * d && length_squared > 0) by (nonlinear_arith)
        requires
            k != 0,
            along == d * k,
            length_squared == k * k,
    ;
    lemma_div_multiples_vanish(d, length_squared);
}

/// A drag whose cursor is back where it started puts the piece back where
/// it was: a drag along the heading in every coordinate, a free drag in `x`
/// and `z`.
pub proof fn lemma_cursor_at_start_returns_piece(
    translation: Vec3,
    axis: Vec3,
    anchor: DragAnchor,
)
    requires
        !axis@.is_zero(),
    ensures
        axis_constrained_target(anchor, anchor.cursor_point, axis) == anchor.world_position@,
        free_planar_target(translation, anchor, anchor.cursor_point) == (Vector {
            x: anchor.world_position.x as int,
            y: translation.y as int,
            z: anchor.world_position.z as int,
        }),
{
    let length_squared = axis@.dot(axis@);
    lemma_square_is_positive(axis@);
    assert(cursor_delta(anchor, anchor.cursor_point).dot(axis@) == 0) by (nonlinear_arith)
        requires
            cursor_delta(anchor, anchor.cursor_point) == (Vector { x: 0, y: 0, z: 0 }),
    ;
    assert(0int / length_squared == 0) by (nonlinear_arith)
        requires
            length_squared > 0,
    ;
}

/// On level ground the cursor is anchored at the height of the piece.
pub proof fn lemma_anchor_is_level_with_piece(
    pieces: Map<PieceId, PieceView>,
    ground: GroundPlane,
    id: PieceId,
    ray: Option<Ray>,
)
    requires
        ground.is_level(),
    ensures
        drag_start(pieces, ground, id, ray) matches Ok(anchor) ==> anchor.cursor_point.y
            == anchor.world_position.y,
{
    if drag_start(pieces, ground, id, ray) is Ok {
        lemma_level_hit(ray->0, pieces[id].translation, ground.normal);
    }
}

/// The moves of one drag do not add up: each puts the piece where the
/// cursor is now, measured from the start of the drag, so a move after
/// another comes to what it would have come to alone.
pub proof fn lemma_drag_moves_do_not_accumulate(
    pieces: Map<PieceId, PieceView>,
    ground: GroundPlane,
    id: PieceId,
    first: Option<Ray>,
    second: Option<Ray>,
)
    requires
        drag_move(pieces, ground, id, first) is Ok,
    ensures
        drag_move(
            pieces.insert(id, moved_to(pieces[id], drag_move(pieces, ground, id, first)->Ok_0)),
            ground,
            id,
            second,
        ) == drag_move(pieces, ground, id, second),
{
}

} // verus!
