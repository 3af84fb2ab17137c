//! The cards of every board of a workspace, kept apart board by board, and
//! the deletion of cards with an optional confirmation.
//!
//! The cards of the active board are on the canvas while it is shown; the
//! store keeps the cards of every other board. Switching boards hands the
//! canvas's cards back to the store and takes the new board's cards out.
use vstd::prelude::*;
use crate::boards::{
    active_after_removal, law_cycle_roundtrip, law_removal_follows_boards, next_index, prev_index,
    BoardList, BoardRemoval, BoardsV,
};
use crate::text::{blank_chars, trim_chars};

verus! {

/// What the store holds, as values.
pub struct StoreV<C> {
    pub boards: BoardsV,
    pub cards: Seq<Seq<C>>,
    pub pending_delete: Option<usize>,
    pub selected: Option<usize>,
    pub editing: Option<usize>,
}

impl<C> StoreV<C> {
    /// The board list is well formed and there is one card slot per board.
    pub open spec fn wf(self) -> bool {
        self.boards.wf() && self.cards.len() == self.boards.names.len()
    }
}

/// The cards of each slot, as sequences.
pub open spec fn slots_view<C>(v: Seq<Vec<C>>) -> Seq<Seq<C>> {
    v.map_values(|s: Vec<C>| s@)
}

/// The boards of a workspace with their cards, which card is selected or
/// edited, and which card waits for its deletion to be confirmed.
pub struct BoardStore<C> {
    boards: BoardList,
    cards: Vec<Vec<C>>,
    pending_delete: Option<usize>,
    selected: Option<usize>,
    editing: Option<usize>,
}

impl<C> View for BoardStore<C> {
    type V = StoreV<C>;

    closed spec fn view(&self) -> StoreV<C> {
        StoreV {
            boards: self.boards@,
            cards: slots_view(self.cards@),
            pending_delete: self.pending_delete,
            selected: self.selected,
            editing: self.editing,
        }
    }
}

/// `v` with slot `i` replaced by `x`; returns what slot `i` held.
fn replace_slot<C>(v: &mut Vec<Vec<C>>, i: usize, x: Vec<C>) -> (was: Vec<C>)
    requires
        i < old(v)@.len(),
    ensures
        slots_view(final(v)@) == slots_view(old(v)@).update(i as int, x@),
        final(v)@.len() == old(v)@.len(),
        was@ == slots_view(old(v)@)[i as int],
{
    let was = v.remove(i);
    v.insert(i, x);
    assert(slots_view(v@) =~= slots_view(old(v)@).update(i as int, x@));
    was
}

/// Whether the canvas takes input: not while the workspace dialog, the
/// settings, a delete confirmation, the import/export dialog or the image
/// picker is open.
pub fn canvas_accepts_input(
    workspace_dialog: bool,
    settings: bool,
    confirming_delete: bool,
    import_export: bool,
    image_picker: bool,
) -> (r: bool)
    ensures
        r == !(workspace_dialog || settings || confirming_delete || import_export || image_picker),
{
    !(workspace_dialog || settings || confirming_delete || import_export || image_picker)
}

/// The store after switching to board `index`: when it is another existing
/// board, the canvas's cards `current` are kept for the active board, board
/// `index` becomes active with its slot emptied (its cards go to the canvas),
/// and no card is selected or edited; otherwise the store is unchanged.
pub open spec fn switched<C>(s: StoreV<C>, index: int, current: Seq<C>) -> StoreV<C> {
    if 0 <= index < s.boards.names.len() && index != s.boards.active {
        StoreV {
            boards: BoardsV { active: index as nat, ..s.boards },
            cards: s.cards.update(s.boards.active as int, current).update(index, Seq::empty()),
            selected: None,
            editing: None,
            ..s
        }
    } else {
        s
    }
}

/// The cards shown on the canvas after switching to board `index`: that
/// board's cards, or `current` when nothing switched.
pub open spec fn shown_after_switch<C>(s: StoreV<C>, index: int, current: Seq<C>) -> Seq<C> {
    if 0 <= index < s.boards.names.len() && index != s.boards.active {
        s.cards[index]
    } else {
        current
    }
}

/// The board Ctrl+Tab (forward) or Ctrl+Shift+Tab (backward) goes to: the
/// next or previous one, wrapping around; the active one when it is alone.
pub open spec fn cycle_target(b: BoardsV, backward: bool) -> int {
    if b.names.len() <= 1 {
        b.active as int
    } else if backward {
        prev_index(b.active, b.names.len()) as int
    } else {
        next_index(b.active, b.names.len()) as int
    }
}

/// With more than one board, Ctrl+Tab always moves to another board, so it
/// hands the cards over and clears the selection as selecting that board
/// does; and Ctrl+Tab followed by Ctrl+Shift+Tab returns to the board one
/// started from.
pub proof fn law_cycle_moves_and_returns(b: BoardsV, backward: bool)
    requires
        b.wf(),
        b.names.len() > 1,
    ensures
        0 <= cycle_target(b, backward) < b.names.len(),
        cycle_target(b, backward) != b.active,
        cycle_target(BoardsV { active: cycle_target(b, backward) as nat, ..b }, !backward)
            == b.active,
{
    law_cycle_roundtrip(b.active, b.names.len());
    let n = b.names.len();
    if !backward {
        if b.active + 1 < n {
            assert((b.active + 1) % n == b.active + 1) by (nonlinear_arith)
                requires
                    b.active + 1 < n,
            ;
        } else {
            assert((b.active + 1) % n == 0) by (nonlinear_arith)
                requires
                    b.active + 1 == n,
                    n > 1,
            ;
        }
    }
}

impl<C> BoardStore<C> {
    /// The boards of a loaded workspace with their cards (one board `Board 1`
    /// without cards where it had none), the saved active board clamped to the
    /// last one, its cards taken out for the canvas.
    pub fn from_saved(names: Vec<String>, cards: Vec<Vec<C>>, saved_active: usize) -> (r: (
        Self,
        Vec<C>,
    ))
        requires
            names@.len() == cards@.len(),
        ensures
            r.0@.wf(),
            r.0@.boards == crate::boards::reloaded(
                crate::boards::names_view(names@),
                saved_active as nat,
            ),
            names@.len() > 0 ==> r.0@.cards == slots_view(cards@).update(
                r.0@.boards.active as int,
                Seq::empty(),
            ),
            names@.len() > 0 ==> r.1@ == slots_view(cards@)[r.0@.boards.active as int],
            names@.len() == 0 ==> r.0@.cards == seq![Seq::<C>::empty()] && r.1@.len() == 0,
            r.0@.pending_delete is None && r.0@.selected is None && r.0@.editing is None,
    {
        let n = names.len();
        let boards = BoardList::from_saved(names, saved_active);
        let mut cards = cards;
        if n == 0 {
            cards.push(Vec::new());
            assert(slots_view(cards@) =~= seq![Seq::<C>::empty()]);
        }
        let a = boards.active();
        let shown = replace_slot(&mut cards, a, Vec::new());
        proof {
            if n == 0 {
                assert(slots_view(cards@) =~= seq![Seq::<C>::empty()]);
            }
        }
        (BoardStore { boards, cards, pending_delete: None, selected: None, editing: None }, shown)
    }

    /// The board list.
    pub fn boards(&self) -> (b: &BoardList)
        ensures
            b@ == self@.boards,
    {
        &self.boards
    }

    /// The cards kept for board `index` (none for the board shown on the
    /// canvas, whose cards are there).
    pub fn cards_of(&self, index: usize) -> (c: &Vec<C>)
        requires
            index < self@.cards.len(),
        ensures
            c@ == self@.cards[index as int],
    {
        &self.cards[index]
    }

    /// Adds a board `Board {n}` without cards; the active board stays.
    pub fn add_board(&mut self) -> (index: usize)
        requires
            old(self)@.wf(),
            old(self)@.boards.names.len() < usize::MAX,
        ensures
            final(self)@.wf(),
            index == old(self)@.boards.names.len(),
            final(self)@.boards.names == old(self)@.boards.names.push(
                crate::boards::board_name(index as nat + 1),
            ),
            final(self)@.boards.active == old(self)@.boards.active,
            final(self)@.cards == old(self)@.cards.push(Seq::empty()),
    {
        let index = self.boards.add_board();
        self.cards.push(Vec::new());
        assert(slots_view(self.cards@) =~= slots_view(old(self).cards@).push(Seq::empty()));
        index
    }

    /// Shows board `index`, when it is another existing board: the canvas's
    /// cards `current` go back to the active board's slot, board `index`
    /// becomes active, its cards are taken out of the store for the canvas, and
    /// no card is selected or edited any more. Otherwise nothing changes and
    /// `current` is handed back.
    pub fn switch_board(&mut self, index: usize, current: Vec<C>) -> (shown: Vec<C>)
        requires
            old(self)@.wf(),
        ensures
            final(self)@ == switched(old(self)@, index as int, current@),
            shown@ == shown_after_switch(old(self)@, index as int, current@),
            final(self)@.wf(),
    {
        let a = self.boards.active();
        if index >= self.boards.len() || index == a {
            return current;
        }
        assert(self.cards@.len() == slots_view(self.cards@).len());
        let _ = replace_slot(&mut self.cards, a, current);
        let shown = replace_slot(&mut self.cards, index, Vec::new());
        let _ = self.boards.select_board(index);
        self.selected = None;
        self.editing = None;
        assert(self@.boards =~= BoardsV { active: index as nat, ..old(self)@.boards });
        shown
    }

    /// Ctrl+Tab (or, `backward`, Ctrl+Shift+Tab): shows the next (previous)
    /// board, wrapping around, as selecting that board would; with a single
    /// board nothing changes.
    pub fn cycle_board(&mut self, backward: bool, current: Vec<C>) -> (shown: Vec<C>)
        requires
            old(self)@.wf(),
        ensures
            final(self)@ == switched(old(self)@, cycle_target(old(self)@.boards, backward), current@),
            shown@ == shown_after_switch(
                old(self)@,
                cycle_target(old(self)@.boards, backward),
                current@,
            ),
            final(self)@.wf(),
    {
        let n = self.boards.len();
        let a = self.boards.active();
        let target = if n <= 1 {
            a
        } else if backward {
            if a == 0 {
                n - 1
            } else {
                a - 1
            }
        } else {
            (a + 1) % n
        };
        self.switch_board(target, current)
    }

    /// Deletes board `index`, unless it is the last board or does not exist.
    /// The canvas's cards `current` go back to the active board's slot first;
    /// the removed board's cards go with it, and the cards of the board active
    /// afterwards are taken out for the canvas.
    pub fn delete_board(&mut self, index: usize, current: Vec<C>) -> (r: (BoardRemoval, Vec<C>))
        requires
            old(self)@.wf(),
        ensures
            final(self)@.wf(),
            r.0 is Refused <==> !(old(self)@.boards.names.len() > 1 && index < old(self)@.boards.names.len()),
            r.0 is Refused ==> final(self)@ == old(self)@ && r.1@ == current@,
            r.0 is Removed ==> {
                let all = old(self)@.cards.update(old(self)@.boards.active as int, current@).remove(
                    index as int,
                );
                &&& final(self)@.boards.names == old(self)@.boards.names.remove(index as int)
                &&& final(self)@.boards.active == active_after_removal(
                    old(self)@.boards.active,
                    index as nat,
                    (old(self)@.boards.names.len() - 1) as nat,
                )
                &&& r.1@ == all[final(self)@.boards.active as int]
                &&& final(self)@.cards == all.update(final(self)@.boards.active as int, Seq::empty())
            },
            final(self)@.pending_delete == old(self)@.pending_delete,
    {
        if !(self.boards.len() > 1 && index < self.boards.len()) {
            let r = self.boards.delete_board(index);
            return (r, current);
        }
        let a = self.boards.active();
        assert(self.cards@.len() == slots_view(self.cards@).len());
        let _ = replace_slot(&mut self.cards, a, current);
        let r = self.boards.delete_board(index);
        self.cards.remove(index);
        assert(slots_view(self.cards@) =~= old(self)@.cards.update(a as int, current@).remove(
            index as int,
        ));
        let na = self.boards.active();
        let shown = replace_slot(&mut self.cards, na, Vec::new());
        (r, shown)
    }

    /// Renames board `index` to the trimmed `name`, unless the board does not
    /// exist or the name is blank; returns whether it was renamed.
    pub fn rename_board(&mut self, index: usize, name: String) -> (renamed: bool)
        requires
            old(self)@.wf(),
        ensures
            final(self)@.wf(),
            renamed == (index < old(self)@.boards.names.len() && !blank_chars(name@)),
            renamed ==> final(self)@.boards.names == old(self)@.boards.names.update(
                index as int,
                trim_chars(name@),
            ),
            !renamed ==> final(self)@.boards.names == old(self)@.boards.names,
            final(self)@.boards.active == old(self)@.boards.active,
            final(self)@.cards == old(self)@.cards,
    {
        if index >= self.boards.len() {
            return false;
        }
        self.boards.start_renaming(index);
        self.boards.set_rename_value(name);
        self.boards.finish_renaming()
    }

    /// A card is selected, or none.
    pub fn select_card(&mut self, id: Option<usize>)
        ensures
            final(self)@ == (StoreV { selected: id, ..old(self)@ }),
    {
        self.selected = id;
    }

    /// A card is being edited, or none.
    pub fn edit_card(&mut self, id: Option<usize>)
        ensures
            final(self)@ == (StoreV { editing: id, ..old(self)@ }),
    {
        self.editing = id;
    }

    /// The card that waits for its deletion to be confirmed.
    pub fn pending_delete(&self) -> (r: Option<usize>)
        ensures
            r == self@.pending_delete,
    {
        self.pending_delete
    }

    /// The selected card.
    pub fn selected(&self) -> (r: Option<usize>)
        ensures
            r == self@.selected,
    {
        self.selected
    }

    /// The card being edited.
    pub fn editing(&self) -> (r: Option<usize>)
        ensures
            r == self@.editing,
    {
        self.editing
    }

    /// Card `id` is gone: it is no longer selected or edited.
    fn forget_card(&mut self, id: usize)
        ensures
            final(self)@ == (StoreV {
                selected: if old(self)@.selected == Some(id) {
                    None
                } else {
                    old(self)@.selected
                },
                editing: if old(self)@.editing == Some(id) {
                    None
                } else {
                    old(self)@.editing
                },
                ..old(self)@
            }),
    {
        if self.selected == Some(id) {
            self.selected = None;
        }
        if self.editing == Some(id) {
            self.editing = None;
        }
    }

    /// A request to delete card `id`. When deletions are confirmed first, the
    /// card waits for the confirmation and `None` is returned; else `Some(id)`
    /// says to delete it now, and it is no longer selected or edited.
    pub fn request_delete_card(&mut self, id: usize, confirm: bool) -> (r: Option<usize>)
        ensures
            final(self)@.boards == old(self)@.boards,
            final(self)@.cards == old(self)@.cards,
            confirm ==> r is None && final(self)@.pending_delete == Some(id) && final(self)@.selected
                == old(self)@.selected && final(self)@.editing == old(self)@.editing,
            !confirm ==> r == Some(id) && final(self)@.pending_delete == old(self)@.pending_delete
                && final(self)@.selected == (if old(self)@.selected == Some(id) {
                None
            } else {
                old(self)@.selected
            }) && final(self)@.editing == (if old(self)@.editing == Some(id) {
                None
            } else {
                old(self)@.editing
            }),
    {
        if confirm {
            self.pending_delete = Some(id);
            None
        } else {
            self.forget_card(id);
            Some(id)
        }
    }

    /// The deletion is confirmed: returns the card to delete, if one was
    /// waiting, which is then no longer selected or edited.
    pub fn confirm_delete(&mut self) -> (r: Option<usize>)
        ensures
            r == old(self)@.pending_delete,
            final(self)@.pending_delete is None,
            final(self)@.boards == old(self)@.boards,
            final(self)@.cards == old(self)@.cards,
            r matches Some(id) ==> final(self)@.selected == (if old(self)@.selected == Some(id) {
                None
            } else {
                old(self)@.selected
            }) && final(self)@.editing == (if old(self)@.editing == Some(id) {
                None
            } else {
                old(self)@.editing
            }),
            r is None ==> final(self)@.selected == old(self)@.selected && final(self)@.editing
                == old(self)@.editing,
    {
        let r = self.pending_delete;
        self.pending_delete = None;
        if let Some(id) = r {
            self.forget_card(id);
        }
        r
    }

    /// The deletion is cancelled: no card waits any more, nothing else changes.
    pub fn cancel_delete(&mut self)
        ensures
            final(self)@ == (StoreV { pending_delete: None, ..old(self)@ }),
    {
        self.pending_delete = None;
    }
}

/// Switching to a board and back to the one before gives each board its own
/// cards again: what was on the canvas is shown again, and the other board's
/// cards are back in its slot.
pub proof fn law_switch_back_restores_cards<C>(
    cards: Seq<Seq<C>>,
    active: int,
    index: int,
    current: Seq<C>,
    shown_other: Seq<C>,
)
    requires
        0 <= active < cards.len(),
        0 <= index < cards.len(),
        active != index,
    ensures
        ({
            let after = cards.update(active, current).update(index, Seq::empty());
            let shown = cards.update(active, current)[index];
            let back = after.update(index, shown)[active];
            &&& shown == cards[index]
            &&& back == current
            &&& after.update(index, shown).update(active, Seq::empty()) == cards.update(
                active,
                Seq::empty(),
            )
        }),
{
    let after = cards.update(active, current).update(index, Seq::empty());
    let shown = cards.update(active, current)[index];
    assert(after.update(index, shown).update(active, Seq::empty()) =~= cards.update(
        active,
        Seq::empty(),
    ));
}

/// Deleting a board takes its cards away and keeps every other board's cards
/// with that board: the board at `key` before is the board at its new index
/// after, with the same cards.
pub proof fn law_delete_keeps_other_boards_cards<C>(b: BoardsV, cards: Seq<Seq<C>>, index: nat)
    requires
        b.wf(),
        cards.len() == b.names.len(),
        b.names.len() > 1,
        index < b.names.len(),
    ensures
        forall|key: nat|
            key < b.names.len() && key != index ==> {
                &&& #[trigger] crate::boards::key_after_removal(key, index) matches Some(k)
                &&& cards.remove(index as int)[k as int] == cards[key as int]
                &&& b.names.remove(index as int)[k as int] == b.names[key as int]
            },
{
    law_removal_follows_boards(b, index);
    assert forall|key: nat| key < b.names.len() && key != index implies {
        &&& #[trigger] crate::boards::key_after_removal(key, index) matches Some(k)
        &&& cards.remove(index as int)[k as int] == cards[key as int]
        &&& b.names.remove(index as int)[k as int] == b.names[key as int]
    } by {
        let k = crate::boards::key_after_removal(key, index)->0;
        if key < index {
            assert(cards.remove(index as int)[k as int] == cards[key as int]);
        } else {
            assert(cards.remove(index as int)[k as int] == cards[key as int]);
        }
    }
}

} // verus!
