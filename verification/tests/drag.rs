use protos2d::drag::{World, window_to_world};
use protos2d::geometry::Pos;

#[test]
fn press_starts_dragging_and_item_tracks_cursor() {
    let mut w = World::new();
    w.add_item(Pos::new(0, 0));
    w.cursor_position(Some(Pos::new(2, -3)), true, false);
    assert!(w.items[0].dragging);
    assert_eq!(w.items[0].pos, Pos::new(2, -3));
    // The drag goes on without the button held: the item follows exactly.
    w.cursor_position(Some(Pos::new(50, 70)), false, false);
    assert!(w.items[0].dragging);
    assert_eq!(w.items[0].pos, Pos::new(50, 70));
}

#[test]
fn press_away_from_item_does_nothing() {
    let mut w = World::new();
    w.add_item(Pos::new(0, 0));
    w.cursor_position(Some(Pos::new(100, 100)), true, false);
    assert!(!w.items[0].dragging);
    assert_eq!(w.items[0].pos, Pos::new(0, 0));
}

#[test]
fn no_cursor_means_no_change() {
    let mut w = World::new();
    w.add_item(Pos::new(0, 0));
    w.cursor_position(None, true, false);
    assert!(!w.items[0].dragging);
    assert_eq!(w.items[0].pos, Pos::new(0, 0));
}

#[test]
fn release_on_free_target_snaps_and_fills() {
    let mut w = World::new();
    w.add_item(Pos::new(0, 0));
    w.add_target(Pos::new(100, 100));
    w.cursor_position(Some(Pos::new(0, 0)), true, false);
    w.cursor_position(Some(Pos::new(100, 100)), false, true);
    assert!(!w.items[0].dragging);
    assert_eq!(w.items[0].pos, Pos::new(100, 100));
    assert_eq!(w.targets[0].filled, Some(0));
}

#[test]
fn release_off_target_just_stops_the_drag() {
    let mut w = World::new();
    w.add_item(Pos::new(0, 0));
    w.add_target(Pos::new(100, 100));
    w.cursor_position(Some(Pos::new(0, 0)), true, false);
    w.cursor_position(Some(Pos::new(30, 0)), false, true);
    assert!(!w.items[0].dragging);
    assert_eq!(w.items[0].pos, Pos::new(30, 0));
    assert_eq!(w.targets[0].filled, None);
}

#[test]
fn filled_target_keeps_its_original_item() {
    let mut w = World::new();
    w.add_item(Pos::new(0, 0));
    w.add_item(Pos::new(0, 40));
    w.add_target(Pos::new(100, 100));
    // The first item is dragged onto the target and fills it.
    w.cursor_position(Some(Pos::new(0, 0)), true, false);
    w.cursor_position(Some(Pos::new(100, 100)), false, true);
    assert_eq!(w.targets[0].filled, Some(0));
    // Dragging the second item onto the already-filled target transfers
    // nothing: the target stays filled by the first item.
    w.cursor_position(Some(Pos::new(0, 40)), true, false);
    w.cursor_position(Some(Pos::new(100, 100)), false, true);
    assert_eq!(w.targets[0].filled, Some(0));
    assert!(!w.items[1].dragging);
    // The second item was not snapped anywhere: it sits where released.
    assert_eq!(w.items[1].pos, Pos::new(100, 100));
    assert_eq!(w.items[0].pos, Pos::new(100, 100));
}

#[test]
fn target_clears_when_no_item_overlaps_it() {
    let mut w = World::new();
    w.add_item(Pos::new(0, 0));
    w.add_target(Pos::new(100, 100));
    w.cursor_position(Some(Pos::new(0, 0)), true, false);
    w.cursor_position(Some(Pos::new(100, 100)), false, true);
    assert_eq!(w.targets[0].filled, Some(0));
    // Dragging the filling item away empties the target.
    w.cursor_position(Some(Pos::new(100, 100)), true, false);
    w.cursor_position(Some(Pos::new(200, 0)), false, true);
    assert_eq!(w.targets[0].filled, None);
    assert_eq!(w.items[0].pos, Pos::new(200, 0));
}

#[test]
fn stale_filled_reference_is_cleared_despite_bystanders() {
    let mut w = World::new();
    w.add_item(Pos::new(0, 0));
    // A bystander item sits overlapping the target but never fills it.
    w.add_item(Pos::new(112, 100));
    w.add_target(Pos::new(100, 100));
    w.cursor_position(Some(Pos::new(0, 0)), true, false);
    w.cursor_position(Some(Pos::new(100, 100)), false, true);
    assert_eq!(w.targets[0].filled, Some(0));
    // Dragging the filling item away clears the slot even though the
    // bystander still overlaps the target: the reference must always be
    // to an item lying on the target.
    w.cursor_position(Some(Pos::new(100, 100)), true, false);
    w.cursor_position(Some(Pos::new(300, 0)), false, true);
    assert_eq!(w.targets[0].filled, None);
    assert_eq!(w.items[0].pos, Pos::new(300, 0));
    assert_eq!(w.items[1].pos, Pos::new(112, 100));
}

#[test]
fn refilling_by_the_same_item_is_allowed() {
    let mut w = World::new();
    w.add_item(Pos::new(0, 0));
    w.add_target(Pos::new(100, 100));
    w.cursor_position(Some(Pos::new(0, 0)), true, false);
    w.cursor_position(Some(Pos::new(100, 100)), false, true);
    assert_eq!(w.targets[0].filled, Some(0));
    // Nudging the same item within the target keeps the match.
    w.cursor_position(Some(Pos::new(100, 100)), true, false);
    w.cursor_position(Some(Pos::new(104, 100)), false, true);
    assert_eq!(w.targets[0].filled, Some(0));
    assert_eq!(w.items[0].pos, Pos::new(100, 100));
}

#[test]
fn window_centre_maps_to_origin() {
    assert_eq!(window_to_world(400, 300, 800, 600), Pos::new(0, 0));
    assert_eq!(window_to_world(0, 0, 800, 600), Pos::new(-400, 300));
    assert_eq!(window_to_world(800, 600, 800, 600), Pos::new(400, -300));
}
