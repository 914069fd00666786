//! Axis-aligned geometry on the integer grid: point-in-square and the
//! corner-containment overlap test shared by all prototypes.
//!
//! Every entity occupies an axis-aligned square described by the position of
//! its centre and its side length. The overlap test used throughout asks
//! whether any of the four corners of one square lies within the other; that
//! is deliberately weaker than true interval overlap, and the gap is stated
//! and proved below rather than silently corrected.

use vstd::prelude::*;

verus! {

/// Positions that worlds keep their fixed entities within, so that the small
/// per-frame displacements provably stay inside `i32`.
pub const POS_LIMIT: i32 = 0x4000_0000;

/// A point on the 2D integer grid: the centre of an entity's square.
#[derive(Clone, Copy, PartialEq, Eq, Structural, Debug)]
pub struct Pos {
    pub x: i32,
    pub y: i32,
}

impl Pos {
    pub fn new(x: i32, y: i32) -> (p: Pos)
        ensures
            p == (Pos { x, y }),
    {
        Pos { x, y }
    }
}

/// Both coordinates of `p` lie within `limit` of the origin.
pub open spec fn within(p: Pos, limit: int) -> bool {
    &&& -limit <= p.x <= limit
    &&& -limit <= p.y <= limit
}

/// The point `(px, py)` lies in the closed square centred at `(cx, cy)` with
/// side `size` (halved by integer division, as the executable test halves it).
pub open spec fn point_in_square(px: int, py: int, cx: int, cy: int, size: int) -> bool {
    let half = size / 2;
    &&& cx - half <= px <= cx + half
    &&& cy - half <= py <= cy + half
}

/// The test position lies within the square of the target entity.
pub open spec fn pos_over(test: Pos, target: Pos, target_size: u32) -> bool {
    point_in_square(test.x as int, test.y as int, target.x as int, target.y as int, target_size as int)
}

/// Some corner of the item's square lies within the target's square: the
/// corner-containment overlap test.
pub open spec fn item_over(target: Pos, target_size: u32, item: Pos, item_size: u32) -> bool {
    let half = item_size as int / 2;
    let tx = target.x as int;
    let ty = target.y as int;
    ||| point_in_square(item.x - half, item.y - half, tx, ty, target_size as int)
    ||| point_in_square(item.x + half, item.y - half, tx, ty, target_size as int)
    ||| point_in_square(item.x - half, item.y + half, tx, ty, target_size as int)
    ||| point_in_square(item.x + half, item.y + half, tx, ty, target_size as int)
}

/// True axis-aligned overlap: the two squares intersect on both axes.
pub open spec fn squares_intersect(a: Pos, a_size: u32, b: Pos, b_size: u32) -> bool {
    let ha = a_size as int / 2;
    let hb = b_size as int / 2;
    &&& a.x - ha <= b.x + hb
    &&& b.x - hb <= a.x + ha
    &&& a.y - ha <= b.y + hb
    &&& b.y - hb <= a.y + ha
}

/// The square of `inner` lies strictly inside the square of `outer` on both
/// axes: no boundary of `inner` touches a boundary of `outer`.
pub open spec fn strictly_inside(inner: Pos, inner_size: u32, outer: Pos, outer_size: u32) -> bool {
    let hi = inner_size as int / 2;
    let ho = outer_size as int / 2;
    &&& outer.x - ho < inner.x - hi
    &&& inner.x + hi < outer.x + ho
    &&& outer.y - ho < inner.y - hi
    &&& inner.y + hi < outer.y + ho
}

/// Whether the test position lies within the square of side `target_size`
/// centred at `target_pos`.
pub fn is_pos_over(test_pos: &Pos, target_pos: &Pos, target_size: u32) -> (r: bool)
    ensures
        r == pos_over(*test_pos, *target_pos, target_size),
{
    let half: i64 = (target_size / 2) as i64;
    let px: i64 = test_pos.x as i64;
    let py: i64 = test_pos.y as i64;
    let cx: i64 = target_pos.x as i64;
    let cy: i64 = target_pos.y as i64;
    px <= cx + half && px >= cx - half && py <= cy + half && py >= cy - half
}

/// Whether some corner of the item's square lies within the target's square.
pub fn is_item_over(target_pos: &Pos, target_size: u32, item_pos: &Pos, item_size: u32) -> (r: bool)
    ensures
        r == item_over(*target_pos, target_size, *item_pos, item_size),
{
    let half: i64 = (item_size / 2) as i64;
    let ix: i64 = item_pos.x as i64;
    let iy: i64 = item_pos.y as i64;
    corner_in_square(ix - half, iy - half, target_pos, target_size)
        || corner_in_square(ix + half, iy - half, target_pos, target_size)
        || corner_in_square(ix - half, iy + half, target_pos, target_size)
        || corner_in_square(ix + half, iy + half, target_pos, target_size)
}

/// Whether the (possibly out-of-`i32`) corner point lies within the target's
/// square.
fn corner_in_square(px: i64, py: i64, target_pos: &Pos, target_size: u32) -> (r: bool)
    ensures
        r == point_in_square(px as int, py as int, target_pos.x as int, target_pos.y as int, target_size as int),
{
    let half: i64 = (target_size / 2) as i64;
    let cx: i64 = target_pos.x as i64;
    let cy: i64 = target_pos.y as i64;
    px <= cx + half && px >= cx - half && py <= cy + half && py >= cy - half
}

/// The known gap of the corner-containment test: when the target's square
/// lies strictly inside the item's square, no corner of the item is within
/// the target, so the test reports no overlap even though the squares truly
/// intersect.
pub proof fn lemma_corner_test_gap(target: Pos, target_size: u32, item: Pos, item_size: u32)
    requires
        strictly_inside(target, target_size, item, item_size),
    ensures
        !item_over(target, target_size, item, item_size),
        squares_intersect(target, target_size, item, item_size),
{
}

/// The corner-containment test is symmetric whenever, on each axis taken
/// alone, neither square's side-interval lies strictly inside the other's;
/// asymmetry can arise only through such per-axis strict containment.
pub proof fn lemma_corner_test_symmetric(a: Pos, a_size: u32, b: Pos, b_size: u32)
    requires
        !axis_strictly_inside(a.x as int, a_size as int, b.x as int, b_size as int),
        !axis_strictly_inside(b.x as int, b_size as int, a.x as int, a_size as int),
        !axis_strictly_inside(a.y as int, a_size as int, b.y as int, b_size as int),
        !axis_strictly_inside(b.y as int, b_size as int, a.y as int, a_size as int),
    ensures
        item_over(a, a_size, b, b_size) == item_over(b, b_size, a, a_size),
{
}

/// The side-interval of the first square on one axis lies strictly inside
/// the side-interval of the second.
pub open spec fn axis_strictly_inside(inner_c: int, inner_size: int, outer_c: int, outer_size: int) -> bool {
    let hi = inner_size / 2;
    let ho = outer_size / 2;
    &&& outer_c - ho < inner_c - hi
    &&& inner_c + hi < outer_c + ho
}

} // verus!
