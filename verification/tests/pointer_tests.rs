use tabletop::geometry::{Ray, Vec3};
use tabletop::piece::PieceId;
use tabletop::pointer::{HeldKeys, Press};
use tabletop::table::{GroundPlane, Skip, Tabletop};

fn down_on_ground(x: i32, z: i32) -> Option<Ray> {
    Some(Ray { origin: Vec3::new(x, 20_000, z), direction: Vec3::new(0, -1, 0) })
}

fn along_ground() -> Option<Ray> {
    Some(Ray { origin: Vec3::new(0, 20_000, 0), direction: Vec3::new(1, 0, 0) })
}

fn keys(multi_select: bool, spawn_modifier: bool) -> HeldKeys {
    HeldKeys { shift_left: multi_select, control_right: spawn_modifier, ..HeldKeys::none() }
}

#[test]
fn press_on_a_piece_is_a_click_and_spawns_nothing() {
    let mut table = Tabletop::new(GroundPlane::level(0));
    let a = table.spawn_piece(Vec3::new(0, 0, 0)).unwrap();
    let b = table.spawn_piece(Vec3::new(5000, 0, 0)).unwrap();
    assert_eq!(table.on_press(Some(a), down_on_ground(0, 0), keys(false, true)), Press::Piece(Ok(())));
    assert_eq!(table.selected_ids(), vec![a]);
    assert_eq!(table.on_press(Some(b), down_on_ground(5000, 0), keys(true, true)), Press::Piece(Ok(())));
    assert_eq!(table.selected_ids(), vec![a, b]);
    assert_eq!(table.registry.ids(), vec![a, b]);
}

#[test]
fn press_on_a_missing_piece_is_skipped() {
    let mut table = Tabletop::new(GroundPlane::level(0));
    let a = table.spawn_piece(Vec3::new(0, 0, 0)).unwrap();
    table.on_click(a, false).unwrap();
    assert_eq!(
        table.on_press(Some(5), down_on_ground(0, 0), keys(false, true)),
        Press::Piece(Err(Skip::MissingTarget))
    );
    assert_eq!(table.selected_ids(), vec![a]);
    assert_eq!(table.registry.ids(), vec![a]);
}

#[test]
fn press_on_the_background_lets_go_of_the_selection() {
    let mut table = Tabletop::new(GroundPlane::level(0));
    let a = table.spawn_piece(Vec3::new(0, 0, 0)).unwrap();
    table.on_click(a, false).unwrap();
    assert_eq!(
        table.on_press(None, down_on_ground(9000, 0), keys(false, false)),
        Press::Background(Err(Skip::ModifierNotHeld))
    );
    assert_eq!(table.selected_ids(), Vec::<PieceId>::new());
    assert_eq!(table.registry.ids(), vec![a]);
}

#[test]
fn press_on_the_background_with_multi_select_keeps_the_selection() {
    let mut table = Tabletop::new(GroundPlane::level(0));
    let a = table.spawn_piece(Vec3::new(0, 0, 0)).unwrap();
    table.on_click(a, false).unwrap();
    assert_eq!(
        table.on_press(None, None, keys(true, false)),
        Press::Background(Err(Skip::ModifierNotHeld))
    );
    assert_eq!(table.selected_ids(), vec![a]);
}

#[test]
fn press_on_the_background_with_the_spawn_modifier_spawns() {
    let mut table = Tabletop::new(GroundPlane::level(0));
    let a = table.spawn_piece(Vec3::new(0, 0, 0)).unwrap();
    table.on_click(a, false).unwrap();
    assert_eq!(table.on_press(None, down_on_ground(9000, 0), keys(false, true)), Press::Background(Ok(1)));
    assert_eq!(table.selected_ids(), Vec::<PieceId>::new());
    assert_eq!(table.registry.piece(1).unwrap().translation, Vec3::new(9000, 375, 0));
    assert_eq!(
        table.on_press(None, along_ground(), keys(true, true)),
        Press::Background(Err(Skip::GeometricMiss))
    );
    assert_eq!(table.on_press(None, None, keys(true, true)), Press::Background(Err(Skip::InvalidInput)));
    assert_eq!(table.registry.ids(), vec![a, 1]);
}

#[test]
fn either_shift_key_is_the_multi_select_modifier() {
    assert!(!HeldKeys::none().multi_select());
    assert!(HeldKeys { shift_left: true, ..HeldKeys::none() }.multi_select());
    assert!(HeldKeys { shift_right: true, ..HeldKeys::none() }.multi_select());
    assert!(!HeldKeys { control_left: true, control_right: true, ..HeldKeys::none() }.multi_select());
}

#[test]
fn either_control_key_is_the_spawn_modifier() {
    assert!(!HeldKeys::none().spawn_modifier());
    assert!(HeldKeys { control_left: true, ..HeldKeys::none() }.spawn_modifier());
    assert!(HeldKeys { control_right: true, ..HeldKeys::none() }.spawn_modifier());
    assert!(!HeldKeys { shift_left: true, shift_right: true, ..HeldKeys::none() }.spawn_modifier());
}

#[test]
fn press_with_both_modifiers_on_the_background_keeps_the_selection_and_spawns() {
    let mut table = Tabletop::new(GroundPlane::level(0));
    let a = table.spawn_piece(Vec3::new(0, 0, 0)).unwrap();
    table.on_click(a, false).unwrap();
    let held = HeldKeys { shift_right: true, control_left: true, ..HeldKeys::none() };
    assert_eq!(table.on_press(None, down_on_ground(9000, 0), held), Press::Background(Ok(1)));
    assert_eq!(table.selected_ids(), vec![a]);
    assert_eq!(table.registry.ids(), vec![a, 1]);
}
