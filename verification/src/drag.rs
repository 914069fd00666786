//! The click-and-drag prototype: items picked up under the cursor on a
//! press, carried exactly with the cursor, and on release snapped onto a
//! target that is free or already matched to them; a filled target whose
//! filling item no longer overlaps it is cleared.
//!
//! A target's filled slot is a reference: an identifier looked up among the
//! items, never ownership.

use vstd::prelude::*;
use crate::geometry::{Pos, pos_over, is_pos_over, item_over, is_item_over};

verus! {

/// Side length of a draggable item.
pub const ITEM_SIZE: u32 = 20;

/// Side length of a target: one and a half items.
pub const TARGET_SIZE: u32 = 30;

/// A draggable item, under a stable identifier.
#[derive(Clone, Copy, PartialEq, Eq, Structural, Debug)]
pub struct Item {
    pub id: u64,
    pub dragging: bool,
    pub pos: Pos,
}

impl Item {
    /// A new item is not being dragged.
    pub fn new(id: u64, pos: Pos) -> (it: Item)
        ensures
            it == (Item { id, dragging: false, pos }),
    {
        Item { id, dragging: false, pos }
    }
}

/// A drop target, holding at most a reference to the item filling it.
#[derive(Clone, Copy, PartialEq, Eq, Structural, Debug)]
pub struct Target {
    pub filled: Option<u64>,
    pub pos: Pos,
}

impl Target {
    /// A new target is unfilled.
    pub fn new(pos: Pos) -> (t: Target)
        ensures
            t == (Target { filled: None, pos }),
    {
        Target { filled: None, pos }
    }
}

/// A press starts dragging an item whose square is under the cursor.
pub open spec fn pressed_item(it: Item, cur: Pos, pressed: bool) -> Item {
    if pressed && pos_over(cur, it.pos, ITEM_SIZE) {
        Item { id: it.id, dragging: true, pos: it.pos }
    } else {
        it
    }
}

/// A target can receive the item when their squares overlap and the target
/// is unfilled or already matched to this very item.
pub open spec fn target_eligible(t: Target, item_pos: Pos, id: u64) -> bool {
    &&& item_over(t.pos, TARGET_SIZE, item_pos, ITEM_SIZE)
    &&& (t.filled is None || t.filled == Some(id))
}

/// Index of the first target that can receive the item, looking from `i`
/// on; the target count when none can.
pub open spec fn first_eligible_target(targets: Seq<Target>, item_pos: Pos, id: u64, i: int) -> int
    decreases targets.len() - i when 0 <= i <= targets.len()
{
    if i >= targets.len() {
        targets.len() as int
    } else if target_eligible(targets[i], item_pos, id) {
        i
    } else {
        first_eligible_target(targets, item_pos, id, i + 1)
    }
}

/// What one frame does to one item and to the targets: a press may start
/// the drag; a dragged item tracks the cursor exactly; on release the drag
/// stops, and the first target that can receive the item, if any, records
/// the item's reference while the item snaps to the target's position.
/// Where several overlapping targets could receive the item, the first in
/// order alone does, deliberately: an item fills one target at a time.
pub open spec fn drag_item_step(targets: Seq<Target>, it: Item, cur: Pos, pressed: bool, released: bool) -> (Item, Seq<Target>) {
    let it1 = pressed_item(it, cur, pressed);
    if !it1.dragging {
        (it1, targets)
    } else if !released {
        (Item { id: it1.id, dragging: true, pos: cur }, targets)
    } else {
        let j = first_eligible_target(targets, cur, it1.id, 0);
        if j < targets.len() {
            (
                Item { id: it1.id, dragging: false, pos: targets[j].pos },
                targets.update(j, Target { filled: Some(it1.id), pos: targets[j].pos }),
            )
        } else {
            (Item { id: it1.id, dragging: false, pos: cur }, targets)
        }
    }
}

/// The items and targets after the first `n` items have taken, in order,
/// one frame step.
pub open spec fn drag_fold(items: Seq<Item>, targets: Seq<Target>, cur: Pos, pressed: bool, released: bool, n: int) -> (Seq<Item>, Seq<Target>)
    decreases n when 0 <= n <= items.len()
{
    if n <= 0 {
        (items, targets)
    } else {
        let prev = drag_fold(items, targets, cur, pressed, released, n - 1);
        let stepped = drag_item_step(prev.1, items[n - 1], cur, pressed, released);
        (prev.0.update(n - 1, stepped.0), stepped.1)
    }
}

/// The item referenced by the target's filled slot still overlaps the
/// target's square.
pub open spec fn filling_item_over(items: Seq<Item>, t: Target) -> bool {
    exists|i: int| 0 <= i < items.len()
        && Some(items[i].id) == t.filled
        && item_over(t.pos, TARGET_SIZE, items[i].pos, ITEM_SIZE)
}

/// The targets after the end-of-frame sweep: a filled target whose filling
/// item no longer overlaps it is cleared, so a filled slot always refers
/// to an item lying on the target.
pub open spec fn cleared_targets(targets: Seq<Target>, items: Seq<Item>) -> Seq<Target> {
    Seq::new(
        targets.len(),
        |j: int| if filling_item_over(items, targets[j]) {
            targets[j]
        } else {
            Target { filled: None, pos: targets[j].pos }
        },
    )
}

/// The drag world: the items, the targets, and the identifier the next
/// item will get.
pub struct World {
    pub items: Vec<Item>,
    pub targets: Vec<Target>,
    pub next_id: u64,
}

impl World {
    /// Item identifiers are distinct and below the next to be given out.
    pub open spec fn wf(self) -> bool {
        &&& forall|i: int, j: int| 0 <= i < j < self.items@.len() ==> self.items@[i].id != self.items@[j].id
        &&& forall|i: int| 0 <= i < self.items@.len() ==> self.items@[i].id < self.next_id
    }

    pub fn new() -> (w: World)
        ensures
            w.wf(),
            w.items@ =~= Seq::<Item>::empty(),
            w.targets@ =~= Seq::<Target>::empty(),
            w.next_id == 0,
    {
        World { items: Vec::new(), targets: Vec::new(), next_id: 0 }
    }

    pub fn add_item(&mut self, pos: Pos)
        requires
            old(self).wf(),
            old(self).next_id < u64::MAX,
        ensures
            final(self).wf(),
            final(self).items@ == old(self).items@.push(Item { id: old(self).next_id, dragging: false, pos }),
            final(self).targets@ == old(self).targets@,
            final(self).next_id == old(self).next_id + 1,
    {
        let it = Item::new(self.next_id, pos);
        self.items.push(it);
        self.next_id = self.next_id + 1;
    }

    pub fn add_target(&mut self, pos: Pos)
        requires
            old(self).wf(),
        ensures
            final(self).wf(),
            final(self).targets@ == old(self).targets@.push(Target { filled: None, pos }),
            final(self).items@ == old(self).items@,
            final(self).next_id == old(self).next_id,
    {
        self.targets.push(Target::new(pos));
    }

    /// One frame of the drag prototype, given the cursor position, if the
    /// cursor is over the window, and the button edges of this frame. With
    /// no cursor nothing happens; otherwise every item takes one frame
    /// step in order, then every filled target whose filling item no
    /// longer overlaps it is cleared.
    pub fn cursor_position(&mut self, cursor: Option<Pos>, pressed: bool, released: bool)
        requires
            old(self).wf(),
        ensures
            final(self).wf(),
            final(self).next_id == old(self).next_id,
            cursor is None ==> {
                &&& final(self).items@ == old(self).items@
                &&& final(self).targets@ == old(self).targets@
            },
            cursor matches Some(cur) ==> {
                &&& final(self).items@ == drag_fold(old(self).items@, old(self).targets@, cur, pressed, released, old(self).items@.len() as int).0
                &&& final(self).targets@ == cleared_targets(
                    drag_fold(old(self).items@, old(self).targets@, cur, pressed, released, old(self).items@.len() as int).1,
                    drag_fold(old(self).items@, old(self).targets@, cur, pressed, released, old(self).items@.len() as int).0,
                )
            },
    {
        let cur: Pos = match cursor {
            None => {
                return;
            }
            Some(c) => c,
        };
        let n: usize = self.items.len();
        let mut i: usize = 0;
        while i < n
            invariant
                0 <= i <= n,
                n == old(self).items@.len(),
                self.next_id == old(self).next_id,
                self.wf(),
                self.items@ == drag_fold(old(self).items@, old(self).targets@, cur, pressed, released, i as int).0,
                self.targets@ == drag_fold(old(self).items@, old(self).targets@, cur, pressed, released, i as int).1,
                self.items@.len() == n,
            decreases n - i,
        {
            let ghost items_before = self.items@;
            let it = self.items[i];
            proof {
                lemma_drag_fold_frame(old(self).items@, old(self).targets@, cur, pressed, released, i as int);
            }
            let it1 = if pressed && is_pos_over(&cur, &it.pos, ITEM_SIZE) {
                Item { id: it.id, dragging: true, pos: it.pos }
            } else {
                it
            };
            if it1.dragging {
                if !released {
                    self.items.set(i, Item { id: it1.id, dragging: true, pos: cur });
                } else {
                    let j = first_eligible(&self.targets, &cur, it1.id);
                    if j < self.targets.len() {
                        let t = self.targets[j];
                        self.items.set(i, Item { id: it1.id, dragging: false, pos: t.pos });
                        self.targets.set(j, Target { filled: Some(it1.id), pos: t.pos });
                    } else {
                        self.items.set(i, Item { id: it1.id, dragging: false, pos: cur });
                    }
                }
            } else {
                proof {
                    assert(items_before.update(i as int, it1) =~= items_before);
                }
            }
            i = i + 1;
        }
        let ghost items_folded = self.items@;
        let ghost targets_folded = self.targets@;
        let m: usize = self.targets.len();
        let mut j: usize = 0;
        while j < m
            invariant
                0 <= j <= m,
                m == targets_folded.len(),
                self.items@ == items_folded,
                self.next_id == old(self).next_id,
                self.wf(),
                self.targets@.len() == m,
                forall|k: int| 0 <= k < j ==> self.targets@[k] == cleared_targets(targets_folded, items_folded)[k],
                forall|k: int| j <= k < m ==> self.targets@[k] == targets_folded[k],
            decreases m - j,
        {
            let t = self.targets[j];
            if !filling_item_still_over(&self.items, &t) {
                self.targets.set(j, Target { filled: None, pos: t.pos });
            }
            j = j + 1;
        }
        proof {
            assert(self.targets@ =~= cleared_targets(targets_folded, items_folded));
        }
    }
}

/// Converts a cursor position in window coordinates (origin at the top
/// left, y growing downward) to world coordinates (origin at the window
/// centre, y growing upward).
pub fn window_to_world(cursor_x: u32, cursor_y: u32, width: u32, height: u32) -> (p: Pos)
    requires
        cursor_x <= width <= i32::MAX,
        cursor_y <= height <= i32::MAX,
    ensures
        p.x == cursor_x - width / 2,
        p.y == height / 2 - cursor_y,
{
    let half_w: u32 = width / 2;
    let half_h: u32 = height / 2;
    let x: i64 = cursor_x as i64 - half_w as i64;
    let y: i64 = half_h as i64 - cursor_y as i64;
    Pos { x: x as i32, y: y as i32 }
}

/// The fold touches only the items already stepped, and never moves or
/// removes a target.
pub proof fn lemma_drag_fold_frame(items: Seq<Item>, targets: Seq<Target>, cur: Pos, pressed: bool, released: bool, n: int)
    requires
        0 <= n <= items.len(),
    ensures
        drag_fold(items, targets, cur, pressed, released, n).0.len() == items.len(),
        forall|j: int| n <= j < items.len()
            ==> drag_fold(items, targets, cur, pressed, released, n).0[j] == items[j],
        drag_fold(items, targets, cur, pressed, released, n).1.len() == targets.len(),
        forall|j: int| 0 <= j < targets.len()
            ==> drag_fold(items, targets, cur, pressed, released, n).1[j].pos == targets[j].pos,
    decreases n,
{
    if n > 0 {
        lemma_drag_fold_frame(items, targets, cur, pressed, released, n - 1);
        let prev = drag_fold(items, targets, cur, pressed, released, n - 1);
        let stepped = drag_item_step(prev.1, items[n - 1], cur, pressed, released);
        assert(drag_fold(items, targets, cur, pressed, released, n)
            == (prev.0.update(n - 1, stepped.0), stepped.1));
        let it1 = pressed_item(items[n - 1], cur, pressed);
        lemma_first_eligible_range(prev.1, cur, it1.id, 0);
        assert forall|j: int| 0 <= j < targets.len()
            implies stepped.1[j].pos == prev.1[j].pos by {
        }
    }
}

/// Index of the first target that can receive the item, or the target
/// count.
fn first_eligible(targets: &Vec<Target>, item_pos: &Pos, id: u64) -> (j: usize)
    ensures
        j == first_eligible_target(targets@, *item_pos, id, 0),
        j <= targets@.len(),
        j < targets@.len() ==> target_eligible(targets@[j as int], *item_pos, id),
{
    let n: usize = targets.len();
    let mut i: usize = 0;
    while i < n
        invariant
            0 <= i <= n,
            n == targets@.len(),
            forall|k: int| 0 <= k < i ==> !target_eligible(targets@[k], *item_pos, id),
        decreases n - i,
    {
        let t = targets[i];
        let over = is_item_over(&t.pos, TARGET_SIZE, item_pos, ITEM_SIZE);
        let free = match t.filled {
            None => true,
            Some(f) => f == id,
        };
        if over && free {
            proof {
                lemma_first_eligible_from(targets@, *item_pos, id, 0, i as int);
            }
            return i;
        }
        i = i + 1;
    }
    proof {
        lemma_first_eligible_from(targets@, *item_pos, id, 0, n as int);
    }
    n
}

/// The scan for an eligible target yields an index between its start and
/// the target count.
proof fn lemma_first_eligible_range(targets: Seq<Target>, item_pos: Pos, id: u64, i: int)
    requires
        0 <= i <= targets.len(),
    ensures
        i <= first_eligible_target(targets, item_pos, id, i) <= targets.len(),
    decreases targets.len() - i,
{
    if i < targets.len() && !target_eligible(targets[i], item_pos, id) {
        lemma_first_eligible_range(targets, item_pos, id, i + 1);
    }
}

/// When no target before `k` can receive the item and `k` either can or is
/// the target count, the scan from `i` stops at `k`.
proof fn lemma_first_eligible_from(targets: Seq<Target>, item_pos: Pos, id: u64, i: int, k: int)
    requires
        0 <= i <= k <= targets.len(),
        forall|j: int| i <= j < k ==> !target_eligible(targets[j], item_pos, id),
        k < targets.len() ==> target_eligible(targets[k], item_pos, id),
    ensures
        first_eligible_target(targets, item_pos, id, i) == k,
    decreases k - i,
{
    if i < k {
        lemma_first_eligible_from(targets, item_pos, id, i + 1, k);
    }
}

/// Whether the item the target's filled slot refers to, if any, still
/// overlaps the target's square.
fn filling_item_still_over(items: &Vec<Item>, t: &Target) -> (r: bool)
    ensures
        r == filling_item_over(items@, *t),
{
    let id: u64 = match t.filled {
        None => {
            return false;
        }
        Some(id) => id,
    };
    let n: usize = items.len();
    let mut i: usize = 0;
    while i < n
        invariant
            0 <= i <= n,
            n == items@.len(),
            t.filled == Some(id),
            forall|k: int| 0 <= k < i
                ==> !(items@[k].id == id && item_over(t.pos, TARGET_SIZE, items@[k].pos, ITEM_SIZE)),
        decreases n - i,
    {
        if items[i].id == id && is_item_over(&t.pos, TARGET_SIZE, &items[i].pos, ITEM_SIZE) {
            return true;
        }
        i = i + 1;
    }
    false
}

/// After the end-of-frame sweep, a target's filled slot is either empty
/// or refers to an item whose square overlaps the target's.
pub proof fn lemma_filled_target_has_item(targets: Seq<Target>, items: Seq<Item>, j: int)
    requires
        0 <= j < targets.len(),
        cleared_targets(targets, items)[j].filled is Some,
    ensures
        cleared_targets(targets, items)[j] == targets[j],
        exists|i: int| #![auto] 0 <= i < items.len()
            && Some(items[i].id) == cleared_targets(targets, items)[j].filled
            && item_over(targets[j].pos, TARGET_SIZE, items[i].pos, ITEM_SIZE),
{
}

/// An item sitting exactly on a target overlaps it.
pub proof fn lemma_item_on_target_overlaps(t: Pos)
    ensures
        item_over(t, TARGET_SIZE, t, ITEM_SIZE),
{
}

/// A target filled during a frame is filled by the reference of an item
/// that now sits exactly on it, and so overlaps it: the snap and the
/// record happen together.
pub proof fn lemma_fresh_fill_is_on_target(items: Seq<Item>, targets: Seq<Target>, cur: Pos, pressed: bool, released: bool, n: int, j: int)
    requires
        0 <= n <= items.len(),
        0 <= j < targets.len(),
        drag_fold(items, targets, cur, pressed, released, n).1[j].filled != targets[j].filled,
    ensures
        exists|i: int| #![auto] 0 <= i < n
            && drag_fold(items, targets, cur, pressed, released, n).1[j].filled
                == Some(drag_fold(items, targets, cur, pressed, released, n).0[i].id)
            && drag_fold(items, targets, cur, pressed, released, n).0[i].pos
                == drag_fold(items, targets, cur, pressed, released, n).1[j].pos,
    decreases n,
{
    lemma_drag_fold_frame(items, targets, cur, pressed, released, n);
    if n > 0 {
        lemma_drag_fold_frame(items, targets, cur, pressed, released, n - 1);
        let prev = drag_fold(items, targets, cur, pressed, released, n - 1);
        let full = drag_fold(items, targets, cur, pressed, released, n);
        let stepped = drag_item_step(prev.1, items[n - 1], cur, pressed, released);
        assert(full == (prev.0.update(n - 1, stepped.0), stepped.1));
        if full.1[j].filled == prev.1[j].filled {
            if prev.1[j].filled != targets[j].filled {
                lemma_fresh_fill_is_on_target(items, targets, cur, pressed, released, n - 1, j);
                let i0 = choose|i: int| #![auto] 0 <= i < n - 1
                    && prev.1[j].filled == Some(prev.0[i].id)
                    && prev.0[i].pos == prev.1[j].pos;
                assert(full.0[i0] == prev.0[i0]);
                assert(full.1[j].pos == prev.1[j].pos);
                assert(0 <= i0 < n
                    && full.1[j].filled == Some(full.0[i0].id)
                    && full.0[i0].pos == full.1[j].pos);
            }
        } else {
            let it1 = pressed_item(items[n - 1], cur, pressed);
            let e = first_eligible_target(prev.1, cur, it1.id, 0);
            lemma_first_eligible_range(prev.1, cur, it1.id, 0);
            assert(it1.dragging && released && e < prev.1.len() && e == j);
            assert(full.0[n - 1] == stepped.0);
            assert(0 <= n - 1 < n
                && full.1[j].filled == Some(full.0[n - 1].id)
                && full.0[n - 1].pos == full.1[j].pos);
        }
    }
}

} // verus!
