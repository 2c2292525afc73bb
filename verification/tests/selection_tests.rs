use tabletop::geometry::Vec3;
use tabletop::piece::PieceId;
use tabletop::table::{GroundPlane, Skip, Tabletop};

fn table_with_three_pieces() -> (Tabletop, PieceId, PieceId, PieceId) {
    let mut table = Tabletop::new(GroundPlane::level(0));
    let a = table.spawn_piece(Vec3::new(0, 0, 0)).unwrap();
    let b = table.spawn_piece(Vec3::new(5000, 0, 0)).unwrap();
    let c = table.spawn_piece(Vec3::new(0, 0, 5000)).unwrap();
    (table, a, b, c)
}

#[test]
fn nothing_is_selected_at_first() {
    let (table, a, b, c) = table_with_three_pieces();
    assert_eq!(table.selected_ids(), Vec::<PieceId>::new());
    assert!(!table.is_selected(a));
    assert!(!table.is_selected(b));
    assert!(!table.is_selected(c));
}

#[test]
fn plain_click_after_plain_click_leaves_only_the_second_selected() {
    let (mut table, a, b, c) = table_with_three_pieces();
    assert_eq!(table.on_click(a, false), Ok(()));
    assert_eq!(table.selected_ids(), vec![a]);
    assert_eq!(table.on_click(b, false), Ok(()));
    assert_eq!(table.selected_ids(), vec![b]);
    assert!(!table.is_selected(a));
    assert!(table.is_selected(b));
    assert!(!table.is_selected(c));
}

#[test]
fn multi_select_click_adds_and_a_second_one_takes_out() {
    let (mut table, a, b, _c) = table_with_three_pieces();
    assert_eq!(table.on_click(a, false), Ok(()));
    assert_eq!(table.on_click(b, true), Ok(()));
    assert_eq!(table.selected_ids(), vec![a, b]);
    assert_eq!(table.on_click(b, true), Ok(()));
    assert_eq!(table.selected_ids(), vec![a]);
}

#[test]
fn multi_select_click_on_the_only_selected_piece_leaves_none() {
    let (mut table, a, _b, _c) = table_with_three_pieces();
    assert_eq!(table.on_click(a, true), Ok(()));
    assert_eq!(table.selected_ids(), vec![a]);
    assert_eq!(table.on_click(a, true), Ok(()));
    assert_eq!(table.selected_ids(), Vec::<PieceId>::new());
}

#[test]
fn plain_click_on_a_selected_piece_keeps_it_and_drops_the_rest() {
    let (mut table, a, b, c) = table_with_three_pieces();
    table.on_click(a, true).unwrap();
    table.on_click(b, true).unwrap();
    table.on_click(c, true).unwrap();
    assert_eq!(table.selected_ids(), vec![a, b, c]);
    assert_eq!(table.on_click(b, false), Ok(()));
    assert_eq!(table.selected_ids(), vec![b]);
}

#[test]
fn deselect_all_twice_leaves_the_selection_empty() {
    let (mut table, a, b, _c) = table_with_three_pieces();
    table.on_click(a, true).unwrap();
    table.on_click(b, true).unwrap();
    table.deselect_all();
    assert_eq!(table.selected_ids(), Vec::<PieceId>::new());
    table.deselect_all();
    assert_eq!(table.selected_ids(), Vec::<PieceId>::new());
    assert_eq!(table.registry.ids(), vec![a, b, 2]);
}

#[test]
fn deselect_all_on_an_empty_table_does_nothing() {
    let mut table = Tabletop::new(GroundPlane::level(0));
    table.deselect_all();
    table.deselect_all();
    assert_eq!(table.selected_ids(), Vec::<PieceId>::new());
    assert_eq!(table.registry.ids(), Vec::<PieceId>::new());
}

#[test]
fn click_on_a_missing_piece_is_skipped_and_changes_nothing() {
    let (mut table, a, b, _c) = table_with_three_pieces();
    table.on_click(a, false).unwrap();
    table.on_click(b, true).unwrap();
    assert_eq!(table.on_click(99, false), Err(Skip::MissingTarget));
    assert_eq!(table.selected_ids(), vec![a, b]);
    assert_eq!(table.on_click(99, true), Err(Skip::MissingTarget));
    assert_eq!(table.selected_ids(), vec![a, b]);
}

#[test]
fn click_on_a_removed_piece_is_skipped() {
    let (mut table, a, b, _c) = table_with_three_pieces();
    table.on_click(a, false).unwrap();
    assert!(table.registry.remove(b).is_some());
    assert_eq!(table.on_click(b, false), Err(Skip::MissingTarget));
    assert_eq!(table.selected_ids(), vec![a]);
}

#[test]
fn removed_piece_leaves_the_selection() {
    let (mut table, a, b, _c) = table_with_three_pieces();
    table.on_click(a, true).unwrap();
    table.on_click(b, true).unwrap();
    let removed = table.registry.remove(a).unwrap();
    assert!(removed.selected);
    assert_eq!(table.selected_ids(), vec![b]);
    assert!(!table.is_selected(a));
}

#[test]
fn background_click_lets_go_of_the_selection() {
    let (mut table, a, b, _c) = table_with_three_pieces();
    table.on_click(a, true).unwrap();
    table.on_click(b, true).unwrap();
    table.on_background_click(false);
    assert_eq!(table.selected_ids(), Vec::<PieceId>::new());
}

#[test]
fn background_click_with_multi_select_keeps_the_selection() {
    let (mut table, a, b, _c) = table_with_three_pieces();
    table.on_click(a, true).unwrap();
    table.on_click(b, true).unwrap();
    table.on_background_click(true);
    assert_eq!(table.selected_ids(), vec![a, b]);
}

#[test]
fn clicks_do_not_move_pieces() {
    let (mut table, a, b, c) = table_with_three_pieces();
    table.on_click(a, false).unwrap();
    table.on_click(b, true).unwrap();
    table.on_click(c, false).unwrap();
    table.deselect_all();
    assert_eq!(table.registry.piece(a).unwrap().translation, Vec3::new(0, 375, 0));
    assert_eq!(table.registry.piece(b).unwrap().translation, Vec3::new(5000, 375, 0));
    assert_eq!(table.registry.piece(c).unwrap().translation, Vec3::new(0, 375, 5000));
    assert_eq!(table.ground, GroundPlane::level(0));
}

#[test]
fn an_identifier_that_names_no_piece_is_not_selected() {
    let (table, _a, _b, _c) = table_with_three_pieces();
    assert!(!table.is_selected(3));
    assert!(!table.is_selected(usize::MAX));
}
