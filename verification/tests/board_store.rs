use cards::board_store::{canvas_accepts_input, BoardStore};
use cards::boards::BoardRemoval;

fn v(items: &[&str]) -> Vec<String> {
    items.iter().map(|s| s.to_string()).collect()
}

fn store() -> (BoardStore<String>, Vec<String>) {
    BoardStore::from_saved(v(&["A", "B", "C"]), vec![v(&["a1", "a2"]), v(&["b1"]), v(&[])], 0)
}

#[test]
fn from_saved_takes_active_cards_out() {
    let (s, shown) = store();
    assert_eq!(shown, v(&["a1", "a2"]));
    assert_eq!(s.boards().active(), 0);
    assert!(s.cards_of(0).is_empty());
    assert_eq!(s.cards_of(1), &v(&["b1"]));
    let (s, shown) = BoardStore::<String>::from_saved(Vec::new(), Vec::new(), 4);
    assert!(shown.is_empty());
    assert_eq!(s.boards().len(), 1);
    assert_eq!(s.boards().name(0), "Board 1");
}

#[test]
fn switch_back_restores_cards_law() {
    let (mut s, mut canvas) = store();
    canvas.push("a3".to_string());
    let shown = s.switch_board(1, canvas);
    assert_eq!(shown, v(&["b1"]));
    assert_eq!(s.cards_of(0), &v(&["a1", "a2", "a3"]));
    assert_eq!(s.boards().active(), 1);
    let back = s.switch_board(0, shown);
    assert_eq!(back, v(&["a1", "a2", "a3"]));
    assert_eq!(s.cards_of(1), &v(&["b1"]));
    assert!(s.cards_of(0).is_empty());
    // Switching to the shown board gives its cards back.
    let same = s.switch_board(0, back);
    assert_eq!(same, v(&["a1", "a2", "a3"]));
    assert!(s.cards_of(0).is_empty());
}

#[test]
fn delete_board_keeps_other_boards_cards_law() {
    let (mut s, canvas) = store();
    let (r, shown) = s.delete_board(1, canvas);
    assert_eq!(r, BoardRemoval::Removed { reload_active: false });
    assert_eq!(shown, v(&["a1", "a2"]));
    assert_eq!(s.boards().len(), 2);
    assert_eq!(s.boards().name(1), "C");
    assert!(s.cards_of(1).is_empty());
    // Deleting the active board shows the board that becomes active.
    let (mut s, canvas) = store();
    let shown = s.switch_board(1, canvas);
    let (r, shown) = s.delete_board(1, shown);
    assert_eq!(r, BoardRemoval::Removed { reload_active: true });
    assert_eq!(s.boards().active(), 1);
    assert_eq!(s.boards().name(1), "C");
    assert!(shown.is_empty());
    assert_eq!(s.cards_of(0), &v(&["a1", "a2"]));
    // The last board is never deleted.
    let (mut one, canvas) = BoardStore::from_saved(v(&["Only"]), vec![v(&["x"])], 0);
    let (r, shown) = one.delete_board(0, canvas);
    assert_eq!(r, BoardRemoval::Refused);
    assert_eq!(shown, v(&["x"]));
}

#[test]
fn added_boards_start_empty() {
    let (mut s, _) = store();
    assert_eq!(s.add_board(), 3);
    assert_eq!(s.boards().name(3), "Board 4");
    assert!(s.cards_of(3).is_empty());
}

#[test]
fn delete_confirmation() {
    let (mut s, _) = store();
    s.select_card(Some(7));
    s.edit_card(Some(7));
    assert_eq!(s.request_delete_card(7, true), None);
    assert_eq!(s.pending_delete(), Some(7));
    assert_eq!(s.selected(), Some(7));
    s.cancel_delete();
    assert_eq!(s.pending_delete(), None);
    assert_eq!(s.request_delete_card(7, true), None);
    assert_eq!(s.confirm_delete(), Some(7));
    assert_eq!(s.pending_delete(), None);
    assert_eq!((s.selected(), s.editing()), (None, None));
    assert_eq!(s.confirm_delete(), None);
    s.select_card(Some(3));
    assert_eq!(s.request_delete_card(5, false), Some(5));
    assert_eq!(s.selected(), Some(3));
    assert_eq!(s.request_delete_card(3, false), Some(3));
    assert_eq!(s.selected(), None);
}

#[test]
fn canvas_input_is_blocked_by_any_dialog() {
    assert!(canvas_accepts_input(false, false, false, false, false));
    assert!(!canvas_accepts_input(true, false, false, false, false));
    assert!(!canvas_accepts_input(false, false, true, false, false));
    assert!(!canvas_accepts_input(false, false, false, false, true));
}

#[test]
fn rename_board_trims_and_refuses_blank_or_missing() {
    let (mut s, _) = store();
    assert!(s.rename_board(2, "  Ideas ".to_string()));
    assert_eq!(s.boards().name(2), "Ideas");
    assert!(!s.rename_board(1, "   ".to_string()));
    assert_eq!(s.boards().name(1), "B");
    assert!(!s.rename_board(9, "X".to_string()));
    assert_eq!(s.cards_of(1), &v(&["b1"]));
}

#[test]
fn ctrl_tab_shows_what_selecting_shows_law() {
    let (mut a, canvas_a) = store();
    let (mut b, canvas_b) = store();
    a.select_card(Some(1));
    a.edit_card(Some(1));
    let shown_a = a.cycle_board(false, canvas_a);
    let shown_b = b.switch_board(1, canvas_b);
    assert_eq!(shown_a, shown_b);
    assert_eq!(a.boards().active(), 1);
    assert_eq!((a.selected(), a.editing()), (None, None));
    assert_eq!(a.cards_of(0), b.cards_of(0));
    // Backward from the first board wraps to the last, and forward returns.
    let (mut s, canvas) = store();
    let shown = s.cycle_board(true, canvas);
    assert_eq!(s.boards().active(), 2);
    let back = s.cycle_board(false, shown);
    assert_eq!(s.boards().active(), 0);
    assert_eq!(back, v(&["a1", "a2"]));
    // A single board does not move.
    let (mut one, canvas) = BoardStore::from_saved(v(&["Only"]), vec![v(&["x"])], 0);
    assert_eq!(one.cycle_board(false, canvas), v(&["x"]));
    assert_eq!(one.boards().active(), 0);
}

#[test]
fn switching_to_the_shown_or_a_missing_board_changes_nothing() {
    let (mut s, canvas) = store();
    s.select_card(Some(4));
    assert_eq!(s.switch_board(0, canvas.clone()), canvas);
    assert_eq!(s.switch_board(9, canvas.clone()), canvas);
    assert_eq!((s.boards().active(), s.selected()), (0, Some(4)));
}
