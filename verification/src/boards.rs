//! The list of boards of a workspace: their names, which one is active, and
//! the renaming of a board in the sidebar.
//!
//! A workspace always holds at least one board, and the active index always
//! points at one of them. Every operation here keeps that, and says in its
//! contract what it changed, so that the application can move the cards of the
//! boards it switched between.
use vstd::prelude::*;
use crate::text::{
    blank_chars, decimal_chars, is_blank, lemma_trim_empty_iff_blank, lemma_trim_idempotent,
    push_decimal, trim_chars, trim_str,
};

verus! {

/// The name a board gets when it is added as the `n`-th board: `Board {n}`.
pub open spec fn board_name(n: nat) -> Seq<char> {
    "Board "@ + decimal_chars(n)
}

/// What the list holds, as plain values.
pub struct BoardsV {
    pub names: Seq<Seq<char>>,
    pub active: nat,
    pub editing: Option<nat>,
    pub rename_value: Seq<char>,
}

/// The boards of a workspace.
pub struct BoardList {
    names: Vec<String>,
    active: usize,
    editing: Option<usize>,
    rename_value: String,
}

/// The characters of each name.
pub open spec fn names_view(v: Seq<String>) -> Seq<Seq<char>> {
    v.map_values(|s: String| s@)
}

impl View for BoardList {
    type V = BoardsV;

    closed spec fn view(&self) -> BoardsV {
        BoardsV {
            names: names_view(self.names@),
            active: self.active as nat,
            editing: match self.editing {
                Some(i) => Some(i as nat),
                None => None,
            },
            rename_value: self.rename_value@,
        }
    }
}

impl BoardsV {
    /// At least one board exists and the active index points at one.
    pub open spec fn wf(self) -> bool {
        self.names.len() >= 1 && self.active < self.names.len()
    }
}

/// The list rebuilt from saved board names and a saved active index: the
/// names (or `Board 1` alone where there were none), the index clamped to the
/// last board, nothing being renamed.
pub open spec fn reloaded(names: Seq<Seq<char>>, saved_active: nat) -> BoardsV {
    let names = if names.len() == 0 {
        seq![board_name(1)]
    } else {
        names
    };
    BoardsV {
        names,
        active: if saved_active < names.len() {
            saved_active
        } else {
            (names.len() - 1) as nat
        },
        editing: None,
        rename_value: Seq::empty(),
    }
}

/// Saving a list's names and active index and rebuilding it from them gives
/// the same boards with the same one active.
pub proof fn law_reload_restores_boards(b: BoardsV)
    requires
        b.wf(),
    ensures
        reloaded(b.names, b.active).names == b.names,
        reloaded(b.names, b.active).active == b.active,
{
}

impl BoardList {
    /// A list holding the one board `Board 1`, which is active.
    pub fn new() -> (b: Self)
        ensures
            b@.wf(),
            b@.names == seq![board_name(1)],
            b@.active == 0,
            b@.editing is None,
            b@.rename_value.len() == 0,
    {
        let mut first = String::new();
        first.append("Board ");
        push_decimal(&mut first, 1);
        let mut names: Vec<String> = Vec::new();
        names.push(first);
        let b = BoardList { names, active: 0, editing: None, rename_value: String::new() };
        assert(b@.names =~= seq![board_name(1)]);
        b
    }

    /// The list of a loaded workspace: its board names (or `Board 1` where it
    /// had none), with the saved active index clamped to the last board.
    pub fn from_saved(names: Vec<String>, saved_active: usize) -> (b: Self)
        ensures
            b@.wf(),
            b@ == reloaded(names_view(names@), saved_active as nat),
    {
        let mut b = if names.len() == 0 {
            BoardList::new()
        } else {
            BoardList { names, active: 0, editing: None, rename_value: String::new() }
        };
        let last = b.names.len() - 1;
        b.active = if saved_active < last {
            saved_active
        } else {
            last
        };
        assert(b@.rename_value =~= Seq::<char>::empty());
        assert(b@.names =~= reloaded(names_view(names@), saved_active as nat).names);
        b
    }

    /// The number of boards.
    pub fn len(&self) -> (n: usize)
        ensures
            n == self@.names.len(),
    {
        self.names.len()
    }

    /// The name of board `index`.
    pub fn name(&self, index: usize) -> (s: &str)
        requires
            index < self@.names.len(),
        ensures
            s@ == self@.names[index as int],
    {
        self.names[index].as_str()
    }

    /// The index of the active board.
    pub fn active(&self) -> (i: usize)
        ensures
            i == self@.active,
    {
        self.active
    }

    /// The board being renamed, if any.
    pub fn editing(&self) -> (e: Option<usize>)
        ensures
            e matches Some(i) ==> self@.editing == Some(i as nat),
            e is None ==> self@.editing is None,
    {
        self.editing
    }

    /// The text typed so far for the new name.
    pub fn rename_value(&self) -> (s: &str)
        ensures
            s@ == self@.rename_value,
    {
        self.rename_value.as_str()
    }

    /// Appends a board named `Board {n}`, `n` being the new number of boards,
    /// and returns its index. The active board stays active.
    pub fn add_board(&mut self) -> (index: usize)
        requires
            old(self)@.wf(),
            old(self)@.names.len() < usize::MAX,
        ensures
            final(self)@.wf(),
            index == old(self)@.names.len(),
            final(self)@.names == old(self)@.names.push(board_name(index as nat + 1)),
            final(self)@.active == old(self)@.active,
            final(self)@.editing == old(self)@.editing,
            final(self)@.rename_value == old(self)@.rename_value,
    {
        let index = self.names.len();
        let mut name = String::new();
        name.append("Board ");
        push_decimal(&mut name, (index + 1) as u64);
        self.names.push(name);
        assert(self@.names =~= old(self)@.names.push(board_name(index as nat + 1)));
        index
    }

    /// A click on board `index` in the sidebar. On the active board, when no
    /// board is being renamed, it starts renaming it (seeded with its name); on
    /// another board, it makes that board active.
    pub fn select_board(&mut self, index: usize) -> (sel: BoardSelection)
        requires
            old(self)@.wf(),
        ensures
            final(self)@.wf(),
            final(self)@.names == old(self)@.names,
            sel == select_outcome(old(self)@, index as nat),
            sel is Ignored ==> final(self)@ == old(self)@,
            sel is StartRename ==> {
                &&& final(self)@.active == old(self)@.active
                &&& final(self)@.editing == Some(index as nat)
                &&& final(self)@.rename_value == old(self)@.names[index as int]
            },
            sel matches BoardSelection::Switch { from, to } ==> {
                &&& from == old(self)@.active
                &&& to == index
                &&& final(self)@.active == index
                &&& final(self)@.editing == old(self)@.editing
                &&& final(self)@.rename_value == old(self)@.rename_value
            },
    {
        if index >= self.names.len() {
            return BoardSelection::Ignored;
        }
        if index == self.active {
            if self.editing.is_none() {
                self.editing = Some(index);
                self.rename_value = self.names[index].clone();
                BoardSelection::StartRename
            } else {
                BoardSelection::Ignored
            }
        } else {
            let from = self.active;
            self.active = index;
            BoardSelection::Switch { from, to: index }
        }
    }

    /// Removes board `index`, unless it is the last board left or does not
    /// exist. The active index then follows its board, or falls back to the
    /// last board when the active one was removed at the end.
    pub fn delete_board(&mut self, index: usize) -> (r: BoardRemoval)
        requires
            old(self)@.wf(),
        ensures
            final(self)@.wf(),
            final(self)@.editing == old(self)@.editing,
            final(self)@.rename_value == old(self)@.rename_value,
            (r is Refused) <==> !(old(self)@.names.len() > 1 && index < old(self)@.names.len()),
            r is Refused ==> final(self)@ == old(self)@,
            r matches BoardRemoval::Removed { reload_active } ==> {
                &&& final(self)@.names == old(self)@.names.remove(index as int)
                &&& final(self)@.active == active_after_removal(
                    old(self)@.active,
                    index as nat,
                    final(self)@.names.len(),
                )
                &&& reload_active == (old(self)@.active >= index)
            },
    {
        if !(self.names.len() > 1 && index < self.names.len()) {
            return BoardRemoval::Refused;
        }
        let old_active = self.active;
        self.names.remove(index);
        let len = self.names.len();
        if self.active >= len {
            self.active = len - 1;
        } else if self.active > index {
            self.active = self.active - 1;
        }
        assert(self@.names =~= old(self)@.names.remove(index as int));
        BoardRemoval::Removed { reload_active: old_active >= index }
    }

    /// Starts renaming board `index`, seeding the text with its name; does
    /// nothing when the board does not exist.
    pub fn start_renaming(&mut self, index: usize)
        requires
            old(self)@.wf(),
        ensures
            final(self)@.wf(),
            final(self)@.names == old(self)@.names,
            final(self)@.active == old(self)@.active,
            index < old(self)@.names.len() ==> {
                &&& final(self)@.editing == Some(index as nat)
                &&& final(self)@.rename_value == old(self)@.names[index as int]
            },
            index >= old(self)@.names.len() ==> final(self)@ == old(self)@,
    {
        if index < self.names.len() {
            self.editing = Some(index);
            self.rename_value = self.names[index].clone();
        }
    }

    /// Replaces the text typed for the new name.
    pub fn set_rename_value(&mut self, value: String)
        requires
            old(self)@.wf(),
        ensures
            final(self)@.wf(),
            final(self)@.names == old(self)@.names,
            final(self)@.active == old(self)@.active,
            final(self)@.editing == old(self)@.editing,
            final(self)@.rename_value == value@,
    {
        self.rename_value = value;
    }

    /// Ends renaming: the board being renamed takes the trimmed text, unless
    /// the text is blank or the board no longer exists. Returns whether a name
    /// changed. Renaming stops and the text is cleared either way.
    pub fn finish_renaming(&mut self) -> (renamed: bool)
        requires
            old(self)@.wf(),
        ensures
            final(self)@.wf(),
            renamed == rename_applies(old(self)@),
            renamed ==> final(self)@.names == old(self)@.names.update(
                old(self)@.editing->0 as int,
                trim_chars(old(self)@.rename_value),
            ),
            !renamed ==> final(self)@.names == old(self)@.names,
            final(self)@.active == old(self)@.active,
            final(self)@.editing is None,
            final(self)@.rename_value.len() == 0,
    {
        let mut renamed = false;
        if let Some(index) = self.editing {
            if index < self.names.len() && !is_blank(self.rename_value.as_str()) {
                let t = trim_str(self.rename_value.as_str());
                let mut name = String::new();
                name.append(t);
                self.names.set(index, name);
                renamed = true;
                assert(self@.names =~= old(self)@.names.update(index as int, trim_chars(old(self)@.rename_value)));
            }
        }
        self.editing = None;
        self.rename_value = String::new();
        renamed
    }

    /// Stops renaming without changing any name.
    pub fn cancel_renaming(&mut self)
        requires
            old(self)@.wf(),
        ensures
            final(self)@.wf(),
            final(self)@.names == old(self)@.names,
            final(self)@.active == old(self)@.active,
            final(self)@.editing is None,
            final(self)@.rename_value.len() == 0,
    {
        self.editing = None;
        self.rename_value = String::new();
    }
}

/// What `delete_board` did.
#[derive(PartialEq, Eq, Structural, Debug, Clone, Copy)]
pub enum BoardRemoval {
    /// Nothing: the board does not exist, or it is the only one.
    Refused,
    /// The board was removed; `reload_active` says whether the active index
    /// now names another board than before (or the removed board was active),
    /// so that its cards must be shown afresh.
    Removed { reload_active: bool },
}

/// Whether finishing a rename of `b` changes a name.
pub open spec fn rename_applies(b: BoardsV) -> bool {
    b.editing matches Some(i) && i < b.names.len() && !blank_chars(b.rename_value)
}

/// The active index after removing board `index`, `new_len` boards being
/// left.
pub open spec fn active_after_removal(active: nat, index: nat, new_len: nat) -> nat {
    if active >= new_len {
        (new_len - 1) as nat
    } else if active > index {
        (active - 1) as nat
    } else {
        active
    }
}

/// The board after `active` among `len`, wrapping around.
pub open spec fn next_index(active: nat, len: nat) -> nat {
    (active + 1) % len
}

/// The board before `active` among `len`, wrapping around.
pub open spec fn prev_index(active: nat, len: nat) -> nat {
    if active == 0 {
        (len - 1) as nat
    } else {
        (active - 1) as nat
    }
}

/// Where the data kept for board `key` goes once board `removed` is gone:
/// nowhere for the removed board, one place down for the boards after it.
pub open spec fn key_after_removal(key: nat, removed: nat) -> Option<nat> {
    if key < removed {
        Some(key)
    } else if key == removed {
        None
    } else {
        Some((key - 1) as nat)
    }
}

/// Removing a board moves every other board's data with it: the board at
/// `key` before the removal is the board at `key_after_removal(key, index)`
/// after it, and the active index follows the active board whenever that board
/// stays.
pub proof fn law_removal_follows_boards(b: BoardsV, index: nat)
    requires
        b.wf(),
        b.names.len() > 1,
        index < b.names.len(),
    ensures
        key_after_removal(index, index) is None,
        forall|key: nat|
            key < b.names.len() && key != index ==> {
                &&& #[trigger] key_after_removal(key, index) matches Some(k)
                &&& k < b.names.len() - 1
                &&& b.names.remove(index as int)[k as int] == b.names[key as int]
            },
        b.active != index ==> key_after_removal(b.active, index) == Some(
            active_after_removal(b.active, index, (b.names.len() - 1) as nat),
        ),
        active_after_removal(b.active, index, (b.names.len() - 1) as nat) < b.names.len() - 1,
{
}

/// Cycling to the next board and back to the previous one (or the other way
/// round) returns to the board one started from.
pub proof fn law_cycle_roundtrip(active: nat, len: nat)
    requires
        len > 1,
        active < len,
    ensures
        prev_index(next_index(active, len), len) == active,
        next_index(prev_index(active, len), len) == active,
        next_index(active, len) < len,
        prev_index(active, len) < len,
{
    if active + 1 < len {
        assert((active + 1) % len == active + 1) by (nonlinear_arith)
            requires
                active + 1 < len,
        ;
    } else {
        assert((active + 1) % len == 0) by (nonlinear_arith)
            requires
                active + 1 == len,
                len > 1,
        ;
    }
    if active == 0 {
        assert(((len - 1) + 1) % (len as int) == 0) by (nonlinear_arith)
            requires
                len > 1,
        ;
    } else {
        assert(active % len == active) by (nonlinear_arith)
            requires
                active < len,
        ;
    }
}

/// A board renamed by `finish_renaming` gets a name that is neither blank nor
/// padded with whitespace.
pub proof fn law_renamed_name_is_clean(b: BoardsV)
    requires
        rename_applies(b),
    ensures
        !blank_chars(trim_chars(b.rename_value)),
        trim_chars(trim_chars(b.rename_value)) == trim_chars(b.rename_value),
{
    lemma_trim_empty_iff_blank(b.rename_value);
    lemma_trim_empty_iff_blank(trim_chars(b.rename_value));
    lemma_trim_idempotent(b.rename_value);
}

/// The new index of the data kept for board `key` once board `removed` is
/// gone, or `None` for the removed board's own data.
pub fn board_key_after_removal(key: usize, removed: usize) -> (r: Option<usize>)
    ensures
        r matches Some(k) ==> key_after_removal(key as nat, removed as nat) == Some(k as nat),
        r is None ==> key_after_removal(key as nat, removed as nat) is None,
{
    if key < removed {
        Some(key)
    } else if key == removed {
        None
    } else {
        Some(key - 1)
    }
}

/// What a click on a board in the sidebar did.
#[derive(PartialEq, Eq, Structural, Debug, Clone, Copy)]
pub enum BoardSelection {
    /// Nothing: the index is past the last board, or the active board is
    /// clicked while a board is being renamed.
    Ignored,
    /// Renaming of the active board started.
    StartRename,
    /// Board `to` became active in place of board `from`.
    Switch { from: usize, to: usize },
}

/// What a click on board `index` does to the list `b`.
pub open spec fn select_outcome(b: BoardsV, index: nat) -> BoardSelection {
    if index >= b.names.len() {
        BoardSelection::Ignored
    } else if index == b.active {
        if b.editing is None {
            BoardSelection::StartRename
        } else {
            BoardSelection::Ignored
        }
    } else {
        BoardSelection::Switch { from: b.active as usize, to: index as usize }
    }
}


/// Deleting the active board shows the board that takes its place: the next
/// one, now at the same index, or the new last board when the deleted board
/// was the last one.
pub proof fn law_deleting_active_board_shows_its_successor(b: BoardsV)
    requires
        b.wf(),
        b.names.len() > 1,
    ensures
        ({
            let i = b.active;
            let len = b.names.len();
            let na = active_after_removal(i, i, (len - 1) as nat);
            &&& i + 1 < len ==> na == i && b.names.remove(i as int)[na as int] == b.names[i + 1int]
            &&& i + 1 == len ==> na == i - 1 && b.names.remove(i as int)[na as int] == b.names[i - 1int]
        }),
{
}

} // verus!
