use protos2d::geometry::{Pos, is_item_over, is_pos_over};

#[test]
fn point_inside_square() {
    let p = Pos::new(3, -4);
    let c = Pos::new(0, 0);
    assert!(is_pos_over(&p, &c, 10));
    assert!(is_pos_over(&Pos::new(5, 5), &c, 10));
    assert!(!is_pos_over(&Pos::new(6, 0), &c, 10));
    assert!(!is_pos_over(&Pos::new(0, -6), &c, 10));
}

#[test]
fn squares_partially_overlapping() {
    let a = Pos::new(0, 0);
    let b = Pos::new(12, 12);
    assert!(is_item_over(&a, 20, &b, 20));
    assert!(is_item_over(&b, 20, &a, 20));
    let far = Pos::new(100, 100);
    assert!(!is_item_over(&a, 20, &far, 20));
    assert!(!is_item_over(&far, 20, &a, 20));
}

#[test]
fn corner_test_gap_contained_square() {
    // The small square lies strictly inside the big one: the squares truly
    // overlap, yet no corner of the big square lies within the small one,
    // so the corner-containment test reports no overlap that way around.
    let small = Pos::new(0, 0);
    let big = Pos::new(0, 0);
    assert!(!is_item_over(&small, 10, &big, 100));
    // The other way around, every corner of the small square is inside.
    assert!(is_item_over(&big, 100, &small, 10));
}

#[test]
fn corner_test_asymmetric_when_one_axis_contained() {
    // On the x axis the small square's side lies strictly inside the big
    // one's; on the y axis they only partially overlap. Neither square
    // contains the other, yet the test answers differently per direction.
    let small = Pos::new(0, 0);
    let big = Pos::new(0, 12);
    assert!(is_item_over(&big, 30, &small, 10));
    assert!(!is_item_over(&small, 10, &big, 30));
}
