//! The registry: the one owner of every piece on the table.

use crate::geometry::Vec3;
use crate::piece::{Direction, DragAnchor, DragMode, DragSession, Piece, PieceId, PieceView};
use vstd::prelude::*;
use vstd::seq_lib::lemma_seq_contains_after_push;

verus! {

/// The pieces on the table, each under its identifier. A removed piece
/// leaves its identifier unused for good, so an old identifier never comes
/// to name another piece.
pub struct PieceRegistry {
    slots: Vec<Option<Piece>>,
}

impl View for PieceRegistry {
    type V = Map<PieceId, PieceView>;

    closed spec fn view(&self) -> Map<PieceId, PieceView> {
        Map::new(
            |id: PieceId| id < self.slots.len() && self.slots[id as int].is_some(),
            |id: PieceId| self.slots[id as int].unwrap()@,
        )
    }
}

impl PieceRegistry {
    /// How many identifiers have been handed out. The next piece gets this
    /// number.
    pub closed spec fn issued(&self) -> nat {
        self.slots.len() as nat
    }

    /// A table without pieces.
    pub fn new() -> (registry: PieceRegistry)
        ensures
            registry@ == Map::<PieceId, PieceView>::empty(),
            registry.issued() == 0,
    {
        let registry = PieceRegistry { slots: Vec::new() };
        registry
    }

    /// The identifier that the next piece will get. Every piece on the
    /// table has a smaller one.
    pub fn next_id(&self) -> (id: PieceId)
        ensures
            id == self.issued(),
            forall|other: PieceId| self@.dom().contains(other) ==> other < id,
    {
        self.slots.len()
    }

    /// Whether `id` names a piece on the table.
    pub fn contains(&self, id: PieceId) -> (found: bool)
        ensures
            found == self@.dom().contains(id),
    {
        id < self.slots.len() && self.slots[id].is_some()
    }

    /// The identifiers of the pieces on the table, rising.
    pub fn ids(&self) -> (ids: Vec<PieceId>)
        ensures
            forall|id: PieceId| ids@.contains(id) <==> self@.dom().contains(id),
            forall|i: int, j: int| 0 <= i < j < ids.len() ==> ids[i] < ids[j],
    {
        let mut ids: Vec<PieceId> = Vec::new();
        let mut id: PieceId = 0;
        while id < self.slots.len()
            invariant
                id <= self.slots.len(),
                forall|other: PieceId|
                    ids@.contains(other) <==> other < id && self@.dom().contains(other),
                forall|i: int, j: int| 0 <= i < j < ids.len() ==> ids[i] < ids[j],
            decreases self.slots.len() - id,
        {
            if self.slots[id].is_some() {
                assert forall|other: PieceId| ids@.push(id).contains(other) <==> other < id + 1
                    && self@.dom().contains(other) by {
                    lemma_seq_contains_after_push(ids@, id, other);
                }
                assert(forall|i: int| 0 <= i < ids.len() ==> ids@.contains(ids[i]));
                ids.push(id);
            }
            id += 1;
        }
        ids
    }

    /// The piece that `id` names.
    pub fn piece(&self, id: PieceId) -> (found: Option<&Piece>)
        ensures
            found.is_some() == self@.dom().contains(id),
            found matches Some(piece) ==> piece@ == self@[id],
    {
        if id < self.slots.len() {
            self.slots[id].as_ref()
        } else {
            None
        }
    }

    /// Puts `piece` on the table and returns its identifier.
    pub fn insert(&mut self, piece: Piece) -> (id: PieceId)
        ensures
            id == old(self).issued(),
            !old(self)@.dom().contains(id),
            final(self)@ == old(self)@.insert(id, piece@),
            final(self).issued() == old(self).issued() + 1,
    {
        let id = self.slots.len();
        self.slots.push(Some(piece));
        id
    }

    /// Takes the piece that `id` names off the table.
    pub fn remove(&mut self, id: PieceId) -> (removed: Option<Piece>)
        ensures
            removed.is_some() == old(self)@.dom().contains(id),
            removed matches Some(piece) ==> piece@ == old(self)@[id],
            final(self)@ == old(self)@.remove(id),
            final(self).issued() == old(self).issued(),
    {
        if id < self.slots.len() {
            self.slots[id].take()
        } else {
            None
        }
    }

    /// Marks the piece that `id` names as selected or not.
    pub fn set_selected(&mut self, id: PieceId, selected: bool) -> (found: bool)
        ensures
            found == old(self)@.dom().contains(id),
            found ==> final(self)@ == old(self)@.insert(
                id,
                (PieceView { selected, ..old(self)@[id] }),
            ),
            !found ==> final(self)@ == old(self)@,
            final(self).issued() == old(self).issued(),
    {
        if id < self.slots.len() {
            match &mut self.slots[id] {
                Some(piece) => {
                    piece.selected = selected;
                    true
                },
                None => false,
            }
        } else {
            false
        }
    }

    /// Moves the piece that `id` names to `translation`.
    pub fn set_translation(&mut self, id: PieceId, translation: Vec3) -> (found: bool)
        ensures
            found == old(self)@.dom().contains(id),
            found ==> final(self)@ == old(self)@.insert(
                id,
                (PieceView { translation, ..old(self)@[id] }),
            ),
            !found ==> final(self)@ == old(self)@,
            final(self).issued() == old(self).issued(),
    {
        if id < self.slots.len() {
            match &mut self.slots[id] {
                Some(piece) => {
                    piece.translation = translation;
                    true
                },
                None => false,
            }
        } else {
            false
        }
    }

    /// Turns the piece that `id` names towards `facing`.
    pub fn set_facing(&mut self, id: PieceId, facing: Direction) -> (found: bool)
        ensures
            found == old(self)@.dom().contains(id),
            found ==> final(self)@ == old(self)@.insert(
                id,
                (PieceView { facing: facing@, ..old(self)@[id] }),
            ),
            !found ==> final(self)@ == old(self)@,
            final(self).issued() == old(self).issued(),
    {
        if id < self.slots.len() {
            match &mut self.slots[id] {
                Some(piece) => {
                    piece.facing = facing;
                    true
                },
                None => false,
            }
        } else {
            false
        }
    }

    /// Sets how drags move the piece that `id` names. An anchor that the
    /// piece holds stays.
    pub fn set_drag_mode(&mut self, id: PieceId, mode: DragMode) -> (found: bool)
        ensures
            found == old(self)@.dom().contains(id),
            found ==> final(self)@ == old(self)@.insert(
                id,
                (PieceView {
                    drag: DragSession { anchor: old(self)@[id].drag.anchor, mode },
                    ..old(self)@[id]
                }),
            ),
            !found ==> final(self)@ == old(self)@,
            final(self).issued() == old(self).issued(),
    {
        if id < self.slots.len() {
            match &mut self.slots[id] {
                Some(piece) => {
                    piece.drag.mode = mode;
                    true
                },
                None => false,
            }
        } else {
            false
        }
    }

    /// Gives the piece that `id` names a drag anchor, in place of any it
    /// holds. Its drag mode stays.
    pub fn set_drag_anchor(&mut self, id: PieceId, anchor: DragAnchor) -> (found: bool)
        ensures
            found == old(self)@.dom().contains(id),
            found ==> final(self)@ == old(self)@.insert(
                id,
                (PieceView {
                    drag: DragSession { anchor: Some(anchor), mode: old(self)@[id].drag.mode },
                    ..old(self)@[id]
                }),
            ),
            !found ==> final(self)@ == old(self)@,
            final(self).issued() == old(self).issued(),
    {
        if id < self.slots.len() {
            match &mut self.slots[id] {
                Some(piece) => {
                    piece.drag.anchor = Some(anchor);
                    true
                },
                None => false,
            }
        } else {
            false
        }
    }
}

} // verus!
