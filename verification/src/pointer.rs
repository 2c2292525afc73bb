//! Presses of the pointer: which of them is a click on a piece, and which
//! a press on the background.

use crate::geometry::Ray;
use crate::piece::{fresh_piece, PieceId, PieceView};
use crate::selection::{all_deselected, clicked};
use crate::spawn::spawn_place;
use crate::table::{Skip, Tabletop};
use vstd::prelude::*;

verus! {

/// The modifier keys that are down while the pointer is pressed.
#[derive(Clone, Copy, Debug, PartialEq, Eq, Structural)]
pub struct HeldKeys {
    pub shift_left: bool,
    pub shift_right: bool,
    pub control_left: bool,
    pub control_right: bool,
}

impl HeldKeys {
    /// No modifier key is down.
    pub fn none() -> (keys: HeldKeys)
        ensures
            keys == (HeldKeys {
                shift_left: false,
                shift_right: false,
                control_left: false,
                control_right: false,
            }),
    {
        HeldKeys { shift_left: false, shift_right: false, control_left: false, control_right: false }
    }

    /// Either shift key is down.
    pub open spec fn holds_multi_select(self) -> bool {
        self.shift_left || self.shift_right
    }

    /// Either control key is down.
    pub open spec fn holds_spawn_modifier(self) -> bool {
        self.control_left || self.control_right
    }

    /// Whether the multi-select modifier is held: either shift key.
    #[verifier::when_used_as_spec(holds_multi_select)]
    pub fn multi_select(self) -> (held: bool)
        ensures
            held == self.holds_multi_select(),
    {
        self.shift_left || self.shift_right
    }

    /// Whether the spawn modifier is held: either control key.
    #[verifier::when_used_as_spec(holds_spawn_modifier)]
    pub fn spawn_modifier(self) -> (held: bool)
        ensures
            held == self.holds_spawn_modifier(),
    {
        self.control_left || self.control_right
    }
}

/// What a press of the pointer came to.
#[derive(Clone, Copy, Debug, PartialEq, Eq)]
pub enum Press {
    /// The press hit a piece: it was a click on that piece and nothing
    /// more.
    Piece(Result<(), Skip>),
    /// The press hit no piece: it let go of the selection, unless the
    /// multi-select modifier was held, and was a spawn request.
    Background(Result<PieceId, Skip>),
}

/// The pieces after the selection's part in a press on the background.
pub open spec fn background_cleared(pieces: Map<PieceId, PieceView>, multi_select: bool) -> Map<
    PieceId,
    PieceView,
> {
    if multi_select {
        pieces
    } else {
        all_deselected(pieces)
    }
}

impl Tabletop {
    /// A press of the pointer that hit the piece `hit`, or no piece, while
    /// the modifier keys `keys` were down.
    ///
    /// The first piece hit takes the press: it is a click on that piece,
    /// and the background never sees it. Only a press that hit no piece
    /// reaches the background, where it lets go of the selection, unless
    /// the multi-select modifier is held, and then spawns a piece where
    /// `ray` meets the ground, if the spawn modifier is held.
    pub fn on_press(&mut self, hit: Option<PieceId>, ray: Option<Ray>, keys: HeldKeys) -> (outcome:
        Press)
        ensures
            (match hit {
                Some(id) => {
                    if old(self).registry@.dom().contains(id) {
                        &&& outcome == Press::Piece(Ok(()))
                        &&& final(self).registry@ == clicked(
                            old(self).registry@,
                            id,
                            keys.multi_select(),
                        )
                        &&& final(self).registry.issued() == old(self).registry.issued()
                    } else {
                        &&& outcome == Press::Piece(Err(Skip::MissingTarget))
                        &&& final(self).registry@ == old(self).registry@
                        &&& final(self).registry.issued() == old(self).registry.issued()
                    }
                },
                None => match spawn_place(old(self).ground, ray, keys.spawn_modifier()) {
                    Ok(place) => {
                        &&& outcome == Press::Background(Ok(old(self).registry.issued() as PieceId))
                        &&& !old(self).registry@.dom().contains(old(self).registry.issued() as PieceId)
                        &&& final(self).registry@ == background_cleared(
                            old(self).registry@,
                            keys.multi_select(),
                        ).insert(old(self).registry.issued() as PieceId, fresh_piece(place))
                        &&& final(self).registry.issued() == old(self).registry.issued() + 1
                    },
                    Err(skip) => {
                        &&& outcome == Press::Background(Err(skip))
                        &&& final(self).registry@ == background_cleared(
                            old(self).registry@,
                            keys.multi_select(),
                        )
                        &&& final(self).registry.issued() == old(self).registry.issued()
                    },
                },
            }),
            final(self).ground == old(self).ground,
    {
        match hit {
            Some(id) => Press::Piece(self.on_click(id, keys.multi_select())),
            None => {
                self.on_background_click(keys.multi_select());
                Press::Background(self.try_spawn(ray, keys.spawn_modifier()))
            },
        }
    }
}

} // verus!
