use protos2d::conveyor::{Dir, World, rotation};
use protos2d::geometry::Pos;

#[test]
fn right_tile_moves_item_one_tile_width() {
    // An item at (16, 16) overlapping a rightward tile at (0, 16) with
    // tile size 32 moves to (48, 16) after one full 0.5 s period.
    let mut w = World::new();
    w.add_tile(Dir::RIGHT, Pos::new(0, 16));
    w.add_item(Pos::new(16, 16));
    w.conveyor(500);
    assert_eq!(w.items[0].pos, Pos::new(48, 16));
    assert!(w.items[0].moving);
    assert_eq!(w.elapsed_ms, 0);
}

#[test]
fn nothing_moves_before_the_period_completes() {
    let mut w = World::new();
    w.add_tile(Dir::RIGHT, Pos::new(0, 16));
    w.add_item(Pos::new(16, 16));
    w.conveyor(499);
    assert_eq!(w.items[0].pos, Pos::new(16, 16));
    assert!(!w.items[0].moving);
    assert_eq!(w.elapsed_ms, 499);
    // The last millisecond completes the period.
    w.conveyor(1);
    assert_eq!(w.items[0].pos, Pos::new(48, 16));
}

#[test]
fn moved_item_rests_until_the_next_period() {
    let mut w = World::new();
    w.add_tile(Dir::RIGHT, Pos::new(0, 16));
    w.add_item(Pos::new(16, 16));
    w.conveyor(500);
    assert_eq!(w.items[0].pos, Pos::new(48, 16));
    // Time short of a full period leaves the item in place.
    w.conveyor(499);
    assert_eq!(w.items[0].pos, Pos::new(48, 16));
    assert!(w.items[0].moving);
}

#[test]
fn each_direction_displaces_one_tile_width() {
    let mut w = World::new();
    w.add_tile(Dir::UP, Pos::new(0, 0));
    w.add_item(Pos::new(0, 0));
    w.conveyor(500);
    assert_eq!(w.items[0].pos, Pos::new(0, 32));

    let mut w = World::new();
    w.add_tile(Dir::DOWN, Pos::new(0, 0));
    w.add_item(Pos::new(0, 0));
    w.conveyor(500);
    assert_eq!(w.items[0].pos, Pos::new(0, -32));

    let mut w = World::new();
    w.add_tile(Dir::LEFT, Pos::new(0, 0));
    w.add_item(Pos::new(0, 0));
    w.conveyor(500);
    assert_eq!(w.items[0].pos, Pos::new(-32, 0));
}

#[test]
fn only_the_first_overlapping_tile_pushes() {
    // Two tiles overlap the item; only the first moves it, once.
    let mut w = World::new();
    w.add_tile(Dir::RIGHT, Pos::new(0, 0));
    w.add_tile(Dir::UP, Pos::new(16, 0));
    w.add_item(Pos::new(8, 0));
    w.conveyor(500);
    assert_eq!(w.items[0].pos, Pos::new(40, 0));
}

#[test]
fn item_off_the_belt_stays_put() {
    let mut w = World::new();
    w.add_tile(Dir::RIGHT, Pos::new(0, 0));
    w.add_item(Pos::new(500, 500));
    w.conveyor(500);
    assert_eq!(w.items[0].pos, Pos::new(500, 500));
    assert!(!w.items[0].moving);
}

#[test]
fn tile_rotation_degrees() {
    assert_eq!(rotation(Dir::UP), 90);
    assert_eq!(rotation(Dir::DOWN), -90);
    assert_eq!(rotation(Dir::LEFT), 180);
    assert_eq!(rotation(Dir::RIGHT), 0);
}
