//! Pieces: what stands on the table, and what each one carries.

use crate::geometry::Vec3;
use vstd::prelude::*;

verus! {

/// Names a piece. Identifiers are handed out once and never reused.
pub type PieceId = usize;

/// Width of a piece's body, across its heading.
pub const PIECE_WIDTH: i32 = 2000;

/// Height of a piece's body.
pub const PIECE_HEIGHT: i32 = 750;

/// Length of a piece's body, along its heading.
pub const PIECE_LENGTH: i32 = 5000;

/// Height of the turret.
pub const TURRET_HEIGHT: i32 = 500;

/// Radius of the turret.
pub const TURRET_RADIUS: i32 = 750;

/// Length of the gun.
pub const GUN_LENGTH: i32 = 3000;

/// Radius of the gun.
pub const GUN_RADIUS: i32 = 50;

/// How far above the ground the centre of a resting piece is: half its
/// height.
pub const PIECE_REST_HEIGHT: i32 = 375;

/// The `z` coordinate of the heading of a piece that nobody has turned.
pub const FORWARD_Z: i32 = -1;

/// Quarter turns about `x` that tip the turret's round face up.
pub const TURRET_TILT: i8 = -1;

/// How a drag moves a piece.
#[derive(Clone, Copy, Debug, PartialEq, Eq, Structural)]
pub enum DragMode {
    /// The piece follows the cursor over the plane; its height stays.
    FreePlanar,
    /// The piece slides along its own heading only.
    AxisConstrained,
}

/// What a drag gesture fixes when it starts.
#[derive(Clone, Copy, Debug, PartialEq, Eq, Structural)]
pub struct DragAnchor {
    /// Where the piece was.
    pub world_position: Vec3,
    /// Where the cursor met the drag plane.
    pub cursor_point: Vec3,
}

/// The drag state of one piece. The anchor is absent until the first
/// gesture starts; a later gesture replaces it.
#[derive(Clone, Copy, Debug, PartialEq, Eq, Structural)]
pub struct DragSession {
    pub anchor: Option<DragAnchor>,
    pub mode: DragMode,
}

/// A direction in space: a vector that is not zero. Its length carries no
/// meaning.
#[derive(Clone, Copy, Debug, PartialEq, Eq)]
pub struct Direction {
    along: Vec3,
}

impl View for Direction {
    type V = Vec3;

    closed spec fn view(&self) -> Vec3 {
        self.along
    }
}

impl Direction {
    #[verifier::type_invariant]
    spec fn is_direction(self) -> bool {
        !self.along@.is_zero()
    }

    /// The direction of `along`, unless `along` is zero.
    pub fn new(along: Vec3) -> (direction: Option<Direction>)
        ensures
            direction.is_some() <==> !along@.is_zero(),
            direction matches Some(d) ==> d@ == along,
    {
        if along.x == 0 && along.y == 0 && along.z == 0 {
            None
        } else {
            Some(Direction { along })
        }
    }

    /// The heading of a piece that nobody has turned: level, towards
    /// negative `z`.
    pub fn forward() -> (direction: Direction)
        ensures
            direction@ == (Vec3 { x: 0, y: 0, z: FORWARD_Z }),
    {
        Direction { along: Vec3 { x: 0, y: 0, z: FORWARD_Z } }
    }

    /// A vector along this direction.
    pub fn vector(&self) -> (along: Vec3)
        ensures
            along == self@,
            !along@.is_zero(),
    {
        proof {
            use_type_invariant(self);
        }
        self.along
    }
}

/// Which shared shape a part is drawn with.
#[derive(Clone, Copy, Debug, PartialEq, Eq, Structural)]
pub enum PartShape {
    Turret,
    Gun,
}

/// A visual part fixed to a piece. It is placed relative to its parent and
/// moves with it; it is never selected or dragged by itself, and the pointer
/// passes through it to the piece.
#[derive(Clone, Copy, Debug, PartialEq, Eq, Structural)]
pub struct Part {
    pub shape: PartShape,
    /// The part this one is fixed to, by its place in the piece's list of
    /// parts; `None` for the body of the piece.
    pub parent: Option<usize>,
    /// Where the part sits, seen from its parent.
    pub offset: Vec3,
    /// How the part is turned about its parent's `x` axis, in quarter turns.
    pub quarter_turns_about_x: i8,
}

/// The turret: on top of the body, tipped a quarter turn so that its round
/// face looks up.
pub open spec fn turret_part() -> Part {
    Part {
        shape: PartShape::Turret,
        parent: None,
        offset: Vec3 { x: 0, y: 625, z: 0 },
        quarter_turns_about_x: TURRET_TILT,
    }
}

/// The gun: fixed to the turret, half its length out from the turret's
/// centre.
pub open spec fn gun_part() -> Part {
    Part {
        shape: PartShape::Gun,
        parent: Some(0),
        offset: Vec3 { x: 0, y: 1500, z: 0 },
        quarter_turns_about_x: 0,
    }
}

/// The parts of a new piece: a turret, and a gun on the turret.
pub open spec fn standard_parts() -> Seq<Part> {
    seq![turret_part(), gun_part()]
}

/// Every part is fixed to the body or to a part that comes before it in the
/// list, so the parts hang together as a tree under the body.
pub open spec fn parents_come_first(parts: Seq<Part>) -> bool {
    forall|i: int|
        0 <= i < parts.len() ==> (#[trigger] parts[i].parent matches Some(parent) ==> parent < i)
}

/// The parts of a new piece hang together as a tree under the body.
pub proof fn lemma_standard_parts_form_a_tree()
    ensures
        parents_come_first(standard_parts()),
{
}

/// A piece on the table. Every piece can be selected and dragged; its parts
/// cannot.
#[derive(Debug)]
pub struct Piece {
    /// Where the centre of the body is.
    pub translation: Vec3,
    /// Where the piece is heading.
    pub facing: Direction,
    pub selected: bool,
    pub drag: DragSession,
    pub parts: Vec<Part>,
}

/// A piece as the contracts speak of it.
pub struct PieceView {
    pub translation: Vec3,
    /// A vector along the heading, never zero.
    pub facing: Vec3,
    pub selected: bool,
    pub drag: DragSession,
    pub parts: Seq<Part>,
}

impl View for Piece {
    type V = PieceView;

    open spec fn view(&self) -> PieceView {
        PieceView {
            translation: self.translation,
            facing: self.facing@,
            selected: self.selected,
            drag: self.drag,
            parts: self.parts@,
        }
    }
}

/// A piece as it is when it is put on the table at `translation`: heading
/// forward, not selected, never dragged, and set to slide along its heading.
pub open spec fn fresh_piece(translation: Vec3) -> PieceView {
    PieceView {
        translation,
        facing: Vec3 { x: 0, y: 0, z: FORWARD_Z },
        selected: false,
        drag: DragSession { anchor: None, mode: DragMode::AxisConstrained },
        parts: standard_parts(),
    }
}

impl Piece {
    /// A new piece with its centre at `translation`.
    pub fn new(translation: Vec3) -> (piece: Piece)
        ensures
            piece@ == fresh_piece(translation),
    {
        let mut parts: Vec<Part> = Vec::new();
        parts.push(
            Part {
                shape: PartShape::Turret,
                parent: None,
                offset: Vec3 { x: 0, y: PIECE_HEIGHT / 2 + TURRET_HEIGHT / 2, z: 0 },
                quarter_turns_about_x: TURRET_TILT,
            },
        );
        parts.push(
            Part {
                shape: PartShape::Gun,
                parent: Some(0),
                offset: Vec3 { x: 0, y: GUN_LENGTH / 2, z: 0 },
                quarter_turns_about_x: 0,
            },
        );
        assert(parts@ =~= standard_parts());
        Piece {
            translation,
            facing: Direction::forward(),
            selected: false,
            drag: DragSession { anchor: None, mode: DragMode::AxisConstrained },
            parts,
        }
    }
}

} // verus!
