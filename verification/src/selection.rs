//! Selection: which pieces a click selects and which it lets go.

use crate::piece::{PieceId, PieceView};
use crate::table::{Skip, Tabletop};
use vstd::prelude::*;
use vstd::seq_lib::lemma_seq_contains_after_push;

verus! {

/// The pieces that are selected.
pub open spec fn selection(pieces: Map<PieceId, PieceView>) -> Set<PieceId> {
    Set::new(|id: PieceId| pieces.dom().contains(id) && pieces[id].selected)
}

/// `piece`, selected or not as `selected` says.
pub open spec fn with_selected(piece: PieceView, selected: bool) -> PieceView {
    PieceView { selected, ..piece }
}

/// The same pieces, none of them selected.
pub open spec fn all_deselected(pieces: Map<PieceId, PieceView>) -> Map<PieceId, PieceView> {
    Map::new(|id: PieceId| pieces.dom().contains(id), |id: PieceId| with_selected(pieces[id], false))
}

/// The pieces after a click on the piece `id`, which is one of them.
///
/// With the multi-select modifier the click flips the piece between
/// selected and not, and leaves the others alone. Without it the click
/// selects the piece and lets go of every other.
pub open spec fn clicked(pieces: Map<PieceId, PieceView>, id: PieceId, multi_select: bool) -> Map<
    PieceId,
    PieceView,
> {
    if multi_select {
        pieces.insert(id, with_selected(pieces[id], !pieces[id].selected))
    } else {
        all_deselected(pieces).insert(id, with_selected(pieces[id], true))
    }
}

/// The pieces with an identifier below `bound` deselected, the others as
/// they are.
spec fn deselected_below(pieces: Map<PieceId, PieceView>, bound: PieceId) -> Map<
    PieceId,
    PieceView,
> {
    Map::new(
        |id: PieceId| pieces.dom().contains(id),
        |id: PieceId|
            if id < bound {
                with_selected(pieces[id], false)
            } else {
                pieces[id]
            },
    )
}

impl Tabletop {
    /// Lets go of every selected piece.
    pub fn deselect_all(&mut self)
        ensures
            final(self).registry@ == all_deselected(old(self).registry@),
            final(self).registry.issued() == old(self).registry.issued(),
            final(self).ground == old(self).ground,
    {
        let bound = self.registry.next_id();
        let mut id: PieceId = 0;
        while id < bound
            invariant
                id <= bound,
                bound == old(self).registry.issued(),
                self.registry.issued() == old(self).registry.issued(),
                self.ground == old(self).ground,
                self.registry@ == deselected_below(old(self).registry@, id),
                forall|other: PieceId|
                    old(self).registry@.dom().contains(other) ==> other < bound,
            decreases bound - id,
        {
            self.registry.set_selected(id, false);
            id += 1;
        }
    }

    /// A click on the piece `id`.
    ///
    /// Without the multi-select modifier the piece becomes the one selected
    /// piece. With it the piece is added to the selection, or taken out if
    /// it was in. A click on an identifier that names no piece is skipped.
    pub fn on_click(&mut self, id: PieceId, multi_select: bool) -> (outcome: Result<(), Skip>)
        ensures
            outcome == (if old(self).registry@.dom().contains(id) {
                Ok::<(), Skip>(())
            } else {
                Err::<(), Skip>(Skip::MissingTarget)
            }),
            final(self).registry@ == (if old(self).registry@.dom().contains(id) {
                clicked(old(self).registry@, id, multi_select)
            } else {
                old(self).registry@
            }),
            final(self).registry.issued() == old(self).registry.issued(),
            final(self).ground == old(self).ground,
    {
        let was_selected = match self.registry.piece(id) {
            Some(piece) => piece.selected,
            None => {
                return Err(Skip::MissingTarget);
            },
        };
        if multi_select {
            self.registry.set_selected(id, !was_selected);
        } else {
            self.deselect_all();
            self.registry.set_selected(id, true);
        }
        Ok(())
    }

    /// A click that hit no piece. Without the multi-select modifier it lets
    /// go of every selected piece; with it nothing changes.
    pub fn on_background_click(&mut self, multi_select: bool)
        ensures
            final(self).registry@ == (if multi_select {
                old(self).registry@
            } else {
                all_deselected(old(self).registry@)
            }),
            final(self).registry.issued() == old(self).registry.issued(),
            final(self).ground == old(self).ground,
    {
        if !multi_select {
            self.deselect_all();
        }
    }

    /// The selected pieces, by rising identifier.
    pub fn selected_ids(&self) -> (ids: Vec<PieceId>)
        ensures
            forall|id: PieceId| ids@.contains(id) <==> selection(self.registry@).contains(id),
            forall|i: int, j: int| 0 <= i < j < ids.len() ==> ids[i] < ids[j],
    {
        let bound = self.registry.next_id();
        let mut ids: Vec<PieceId> = Vec::new();
        let mut id: PieceId = 0;
        while id < bound
            invariant
                id <= bound,
                forall|other: PieceId| self.registry@.dom().contains(other) ==> other < bound,
                forall|other: PieceId|
                    ids@.contains(other) <==> other < id && selection(self.registry@).contains(
                        other,
                    ),
                forall|i: int, j: int| 0 <= i < j < ids.len() ==> ids[i] < ids[j],
            decreases bound - id,
        {
            if self.is_selected(id) {
                assert forall|other: PieceId| ids@.push(id).contains(other) <==> other < id + 1
                    && selection(self.registry@).contains(other) by {
                    lemma_seq_contains_after_push(ids@, id, other);
                }
                assert(forall|i: int| 0 <= i < ids.len() ==> ids@.contains(ids[i]));
                ids.push(id);
            }
            id += 1;
        }
        ids
    }

    /// Whether the piece `id` is selected, and so to be shown highlighted.
    /// An identifier that names no piece is not selected.
    pub fn is_selected(&self, id: PieceId) -> (selected: bool)
        ensures
            selected == selection(self.registry@).contains(id),
    {
        match self.registry.piece(id) {
            Some(piece) => piece.selected,
            None => false,
        }
    }
}

/// After a click without the multi-select modifier, the clicked piece is
/// selected and no other piece is.
pub proof fn lemma_exclusive_click_selects_one(pieces: Map<PieceId, PieceView>, id: PieceId)
    requires
        pieces.dom().contains(id),
    ensures
        selection(clicked(pieces, id, false)) == set![id],
{
}

/// A click with the multi-select modifier takes the clicked piece out of
/// the selection if it was in, puts it in if it was not, and leaves every
/// other piece as it was.
pub proof fn lemma_multi_click_toggles(pieces: Map<PieceId, PieceView>, id: PieceId)
    requires
        pieces.dom().contains(id),
    ensures
        selection(clicked(pieces, id, true)) == (if selection(pieces).contains(id) {
            selection(pieces).remove(id)
        } else {
            selection(pieces).insert(id)
        }),
{
}

/// Whatever was selected before: a plain click on `a`, then a multi-select
/// click on another piece `b`, leaves exactly the two selected; a second
/// multi-select click on `b` leaves exactly `a`.
pub proof fn lemma_click_then_extend_then_retract(
    pieces: Map<PieceId, PieceView>,
    a: PieceId,
    b: PieceId,
)
    requires
        pieces.dom().contains(a),
        pieces.dom().contains(b),
        a != b,
    ensures
        selection(clicked(clicked(pieces, a, false), b, true)) == set![a, b],
        selection(clicked(clicked(clicked(pieces, a, false), b, true), b, true)) == set![a],
{
}

/// Two plain clicks in a row leave only the second piece selected.
pub proof fn lemma_second_exclusive_click_wins(
    pieces: Map<PieceId, PieceView>,
    a: PieceId,
    b: PieceId,
)
    requires
        pieces.dom().contains(a),
        pieces.dom().contains(b),
    ensures
        selection(clicked(clicked(pieces, a, false), b, false)) == set![b],
{
    lemma_exclusive_click_selects_one(clicked(pieces, a, false), b);
}

/// Deselecting everything leaves nothing selected, and doing it again
/// changes nothing.
pub proof fn lemma_deselect_all_idempotent(pieces: Map<PieceId, PieceView>)
    ensures
        selection(all_deselected(pieces)) == Set::<PieceId>::empty(),
        all_deselected(all_deselected(pieces)) == all_deselected(pieces),
{
}

/// A click changes which pieces are selected and nothing else: the same
/// pieces are on the table, and each is where it was, heading where it
/// headed, with the drag state and the parts it had.
pub proof fn lemma_click_changes_selection_only(
    pieces: Map<PieceId, PieceView>,
    id: PieceId,
    multi_select: bool,
)
    requires
        pieces.dom().contains(id),
    ensures
        clicked(pieces, id, multi_select).dom() == pieces.dom(),
        forall|other: PieceId| #[trigger]
            pieces.dom().contains(other) ==> clicked(pieces, id, multi_select)[other]
                == with_selected(pieces[other], clicked(pieces, id, multi_select)[other].selected),
{
}

} // verus!
