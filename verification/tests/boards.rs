use cards::boards::{board_key_after_removal, BoardList, BoardRemoval, BoardSelection};

fn names(b: &BoardList) -> Vec<String> {
    (0..b.len()).map(|i| b.name(i).to_string()).collect()
}

#[test]
fn new_list_holds_board_one() {
    let b = BoardList::new();
    assert_eq!(names(&b), vec!["Board 1"]);
    assert_eq!(b.active(), 0);
    assert_eq!(b.editing(), None);
    assert_eq!(b.rename_value(), "");
}

#[test]
fn added_boards_are_numbered_by_count() {
    let mut b = BoardList::new();
    assert_eq!(b.add_board(), 1);
    assert_eq!(b.add_board(), 2);
    assert_eq!(names(&b), vec!["Board 1", "Board 2", "Board 3"]);
    assert_eq!(b.active(), 0);
    // After a deletion the next number is again the count.
    assert!(matches!(b.delete_board(0), BoardRemoval::Removed { .. }));
    assert_eq!(b.add_board(), 2);
    assert_eq!(names(&b), vec!["Board 2", "Board 3", "Board 3"]);
}

#[test]
fn from_saved_clamps_and_fills() {
    let b = BoardList::from_saved(vec!["A".to_string(), "B".to_string()], 7);
    assert_eq!(names(&b), vec!["A", "B"]);
    assert_eq!(b.active(), 1);
    let b = BoardList::from_saved(vec!["A".to_string(), "B".to_string()], 0);
    assert_eq!(b.active(), 0);
    let b = BoardList::from_saved(Vec::new(), 3);
    assert_eq!(names(&b), vec!["Board 1"]);
    assert_eq!(b.active(), 0);
}

#[test]
fn select_switches_or_starts_renaming() {
    let mut b = BoardList::from_saved(vec!["A".into(), "B".into(), "C".into()], 0);
    assert_eq!(b.select_board(2), BoardSelection::Switch { from: 0, to: 2 });
    assert_eq!(b.active(), 2);
    assert_eq!(b.select_board(9), BoardSelection::Ignored);
    assert_eq!(b.active(), 2);
    assert_eq!(b.select_board(2), BoardSelection::StartRename);
    assert_eq!(b.editing(), Some(2));
    assert_eq!(b.rename_value(), "C");
    // A second click on the active board while renaming does nothing.
    assert_eq!(b.select_board(2), BoardSelection::Ignored);
    assert_eq!(b.editing(), Some(2));
}

#[test]
fn delete_refuses_last_and_missing_boards() {
    let mut b = BoardList::new();
    assert_eq!(b.delete_board(0), BoardRemoval::Refused);
    assert_eq!(names(&b), vec!["Board 1"]);
    b.add_board();
    assert_eq!(b.delete_board(2), BoardRemoval::Refused);
    assert_eq!(b.len(), 2);
}

#[test]
fn delete_adjusts_active_index() {
    let abc = || vec!["A".to_string(), "B".to_string(), "C".to_string()];
    // Active after the removed board moves down with it.
    let mut b = BoardList::from_saved(abc(), 2);
    assert_eq!(b.delete_board(0), BoardRemoval::Removed { reload_active: true });
    assert_eq!(names(&b), vec!["B", "C"]);
    assert_eq!(b.active(), 1);
    assert_eq!(b.name(b.active()), "C");
    // Active before the removed board stays.
    let mut b = BoardList::from_saved(abc(), 0);
    assert_eq!(b.delete_board(1), BoardRemoval::Removed { reload_active: false });
    assert_eq!(b.active(), 0);
    assert_eq!(b.name(0), "A");
    // Removing the active last board falls back to the new last board.
    let mut b = BoardList::from_saved(abc(), 2);
    assert_eq!(b.delete_board(2), BoardRemoval::Removed { reload_active: true });
    assert_eq!(b.active(), 1);
    // Removing the active middle board keeps the index, now on the next board.
    let mut b = BoardList::from_saved(abc(), 1);
    assert_eq!(b.delete_board(1), BoardRemoval::Removed { reload_active: true });
    assert_eq!(b.active(), 1);
    assert_eq!(b.name(1), "C");
}

#[test]
fn removal_law_on_keys() {
    // Data kept per board follows its board after a removal.
    let before = vec!["A", "B", "C", "D"];
    for removed in 0..before.len() {
        let mut b = BoardList::from_saved(before.iter().map(|s| s.to_string()).collect(), 0);
        b.delete_board(removed);
        for key in 0..before.len() {
            match board_key_after_removal(key, removed) {
                Some(k) => assert_eq!(b.name(k), before[key]),
                None => assert_eq!(key, removed),
            }
        }
    }
}

#[test]
fn renaming_trims_and_refuses_blank() {
    let mut b = BoardList::from_saved(vec!["A".into(), "B".into()], 0);
    b.start_renaming(1);
    assert_eq!(b.rename_value(), "B");
    b.set_rename_value("  Ideas \t".to_string());
    assert!(b.finish_renaming());
    assert_eq!(names(&b), vec!["A", "Ideas"]);
    assert_eq!(b.editing(), None);
    assert_eq!(b.rename_value(), "");

    b.start_renaming(0);
    b.set_rename_value("   ".to_string());
    assert!(!b.finish_renaming());
    assert_eq!(names(&b), vec!["A", "Ideas"]);

    b.start_renaming(0);
    b.set_rename_value("Z".to_string());
    b.cancel_renaming();
    assert_eq!(names(&b), vec!["A", "Ideas"]);
    assert_eq!(b.editing(), None);
    assert_eq!(b.rename_value(), "");

    // Starting to rename a board that does not exist changes nothing.
    b.start_renaming(5);
    assert_eq!(b.editing(), None);
    assert!(!b.finish_renaming());
}

#[test]
fn renaming_a_board_removed_meanwhile_does_nothing() {
    let mut b = BoardList::from_saved(vec!["A".into(), "B".into()], 0);
    b.start_renaming(1);
    b.set_rename_value("New".to_string());
    b.delete_board(1);
    assert!(!b.finish_renaming());
    assert_eq!(names(&b), vec!["A"]);
}

#[test]
fn reload_restores_boards_law() {
    let mut b = BoardList::new();
    b.add_board();
    b.add_board();
    b.select_board(1);
    let saved: Vec<String> = names(&b);
    let again = BoardList::from_saved(saved.clone(), b.active());
    assert_eq!(names(&again), saved);
    assert_eq!(again.active(), 1);
}
