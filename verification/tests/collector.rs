use protos2d::collector::{Collector, Item, Source, Target, World};
use protos2d::geometry::Pos;

#[test]
fn default_collector_is_empty_handed_at_origin() {
    let c = Collector::default();
    assert_eq!(c.holding, None);
    assert_eq!(c.pos, Pos::new(0, 0));
}

#[test]
fn source_spawns_one_item_below_itself() {
    let mut w = World::new();
    w.add_source(Pos::new(300, 300));
    w.spawn_item();
    assert_eq!(w.items.len(), 1);
    assert_eq!(w.items[0].id, 0);
    assert_eq!(w.items[0].pos, Pos::new(300, 268));
    // With an item outstanding, nothing more is spawned.
    w.spawn_item();
    assert_eq!(w.items.len(), 1);
    assert_eq!(w.next_id, 1);
}

#[test]
fn collector_eases_toward_nearest_item() {
    let mut w = World::new();
    w.add_collector(Pos::new(0, 0));
    w.add_source(Pos::new(300, 268));
    w.spawn_item();
    // The item sits at (300, 236): one easing step is 5% of the distance,
    // rounded to the nearest whole step.
    w.collect_item();
    assert_eq!(w.collectors[0].holding, None);
    assert_eq!(w.collectors[0].pos, Pos::new(15, 12));
}

#[test]
fn nearest_item_wins() {
    let mut w = World::new();
    w.add_collector(Pos::new(0, 0));
    w.items.push(Item { id: 0, pos: Pos::new(100, 0) });
    w.items.push(Item { id: 1, pos: Pos::new(40, 0) });
    w.next_id = 2;
    w.collect_item();
    assert_eq!(w.collectors[0].pos, Pos::new(2, 0));
    assert_eq!(w.collectors[0].holding, None);
}

#[test]
fn collector_picks_up_overlapping_item() {
    let mut w = World::new();
    w.add_collector(Pos::new(300, 260));
    w.items.push(Item { id: 7, pos: Pos::new(300, 268) });
    w.next_id = 8;
    w.collect_item();
    assert_eq!(w.collectors[0].holding, Some(7));
    assert_eq!(w.collectors[0].pos, Pos::new(300, 260));
}

#[test]
fn one_pickup_per_call() {
    // Both empty-handed collectors stand over the single item; the pass
    // ends at the first pickup, so the second collector is untouched.
    let mut w = World::new();
    w.add_collector(Pos::new(0, 0));
    w.add_collector(Pos::new(4, 0));
    w.items.push(Item { id: 0, pos: Pos::new(8, 0) });
    w.next_id = 1;
    w.collect_item();
    assert_eq!(w.collectors[0].holding, Some(0));
    assert_eq!(w.collectors[1].holding, None);
    assert_eq!(w.collectors[1].pos, Pos::new(4, 0));
}

#[test]
fn collectors_before_the_picker_still_ease() {
    let mut w = World::new();
    w.add_collector(Pos::new(1000, 0));
    w.add_collector(Pos::new(4, 0));
    w.items.push(Item { id: 0, pos: Pos::new(8, 0) });
    w.next_id = 1;
    w.collect_item();
    assert_eq!(w.collectors[0].holding, None);
    assert_eq!(w.collectors[0].pos, Pos::new(950, 0));
    assert_eq!(w.collectors[1].holding, Some(0));
}

#[test]
fn carrying_collector_ignores_other_items() {
    let mut w = World::new();
    w.add_collector(Pos::new(0, 0));
    w.collectors[0].holding = Some(3);
    w.items.push(Item { id: 4, pos: Pos::new(100, 0) });
    w.next_id = 5;
    w.collect_item();
    assert_eq!(w.collectors[0].holding, Some(3));
    assert_eq!(w.collectors[0].pos, Pos::new(0, 0));
}

#[test]
fn delivery_destroys_item_and_releases_reference() {
    let mut w = World::new();
    w.add_collector(Pos::new(300, 268));
    w.add_target(Pos::new(300, 264));
    w.items.push(Item { id: 0, pos: Pos::new(300, 268) });
    w.next_id = 1;
    w.collectors[0].holding = Some(0);
    w.drop_off_item();
    assert_eq!(w.items.len(), 0);
    assert_eq!(w.collectors[0].holding, None);
    assert_eq!(w.collectors[0].pos, Pos::new(300, 268));
}

#[test]
fn carried_item_moves_with_collector_toward_target() {
    let mut w = World::new();
    w.add_collector(Pos::new(0, 0));
    w.add_target(Pos::new(2000, 0));
    w.items.push(Item { id: 0, pos: Pos::new(0, 0) });
    w.next_id = 1;
    w.collectors[0].holding = Some(0);
    w.drop_off_item();
    assert_eq!(w.collectors[0].holding, Some(0));
    assert_eq!(w.collectors[0].pos, Pos::new(100, 0));
    assert_eq!(w.items[0].pos, Pos::new(100, 0));
}

#[test]
fn several_targets_stall_delivery() {
    // Delivery happens only with exactly one target in the world.
    let mut w = World::new();
    w.add_collector(Pos::new(0, 0));
    w.add_target(Pos::new(2000, 0));
    w.add_target(Pos::new(-2000, 0));
    w.items.push(Item { id: 0, pos: Pos::new(0, 0) });
    w.next_id = 1;
    w.collectors[0].holding = Some(0);
    w.drop_off_item();
    assert_eq!(w.collectors[0].holding, Some(0));
    assert_eq!(w.collectors[0].pos, Pos::new(0, 0));
    assert_eq!(w.items[0].pos, Pos::new(0, 0));
}

#[test]
fn stale_reference_leaves_world_unchanged() {
    let mut w = World {
        items: Vec::new(),
        collectors: vec![Collector { holding: Some(5), pos: Pos::new(0, 0) }],
        sources: vec![Source { pos: Pos::new(300, 300) }],
        targets: vec![Target { pos: Pos::new(-300, -300) }],
        next_id: 6,
    };
    w.drop_off_item();
    assert_eq!(w.collectors[0].holding, Some(5));
    assert_eq!(w.collectors[0].pos, Pos::new(0, 0));
    assert_eq!(w.items.len(), 0);
}

#[test]
fn full_cycle_spawn_collect_deliver() {
    let mut w = World::new();
    w.add_collector(Pos::new(0, 0));
    w.add_source(Pos::new(40, 32));
    w.add_target(Pos::new(-40, 0));
    w.spawn_item();
    assert_eq!(w.items[0].pos, Pos::new(40, 0));
    // Glide until pickup; easing always makes progress from this distance.
    for _ in 0..200 {
        w.collect_item();
    }
    assert_eq!(w.collectors[0].holding, Some(0));
    for _ in 0..400 {
        w.drop_off_item();
    }
    assert_eq!(w.items.len(), 0);
    assert_eq!(w.collectors[0].holding, None);
    // The source replenishes once the world is empty again.
    w.spawn_item();
    assert_eq!(w.items.len(), 1);
    assert_eq!(w.items[0].id, 1);
}
