//! The collector prototype: a source spawns items, collectors glide toward
//! the nearest outstanding item until the first collector standing over an
//! item picks it up - one pickup per pass - then carry their item to the
//! sole target and deliver it there, destroying it.
//!
//! A collector carries at most one item, by reference: an identifier looked
//! up among the live items, never ownership, since the item may be destroyed
//! independently.

use vstd::prelude::*;
use crate::geometry::{Pos, item_over, is_item_over, within, POS_LIMIT};

verus! {

/// Side length used for every overlap test of this prototype.
pub const COLLECT_SIZE: u32 = 16;

/// How far below a source a new item appears.
pub const SOURCE_DROP: i32 = 32;

/// Positions that moving entities stay within: the fixed-entity limit plus
/// the headroom one spawn offset can add.
pub const ITEM_LIMIT: i32 = POS_LIMIT + 64;

/// An item awaiting collection, under a stable identifier.
#[derive(Clone, Copy, PartialEq, Eq, Structural, Debug)]
pub struct Item {
    pub id: u64,
    pub pos: Pos,
}

/// A collector, holding at most a reference to the item it carries.
#[derive(Clone, Copy, PartialEq, Eq, Structural, Debug)]
pub struct Collector {
    pub holding: Option<u64>,
    pub pos: Pos,
}

impl Default for Collector {
    /// A collector starts empty-handed at the origin.
    fn default() -> (c: Collector)
        ensures
            c == (Collector { holding: None, pos: Pos { x: 0, y: 0 } }),
    {
        Collector { holding: None, pos: Pos { x: 0, y: 0 } }
    }
}

/// A source: it spawns one item just below itself when no item is left.
#[derive(Clone, Copy, PartialEq, Eq, Structural, Debug)]
pub struct Source {
    pub pos: Pos,
}

impl Source {
    pub fn new(pos: Pos) -> (s: Source)
        ensures
            s == (Source { pos }),
    {
        Source { pos }
    }
}

/// A target: where collectors deliver items.
#[derive(Clone, Copy, PartialEq, Eq, Structural, Debug)]
pub struct Target {
    pub pos: Pos,
}

impl Target {
    pub fn new(pos: Pos) -> (t: Target)
        ensures
            t == (Target { pos }),
    {
        Target { pos }
    }
}

/// The set of item references a collector carries: empty, or one.
pub open spec fn carried_refs(c: Collector) -> Set<u64> {
    match c.holding {
        None => Set::empty(),
        Some(id) => Set::empty().insert(id),
    }
}

/// A collector never carries more than one item reference at a time.
pub proof fn lemma_collector_carries_at_most_one(c: Collector)
    ensures
        carried_refs(c).finite(),
        carried_refs(c).len() <= 1,
{
    match c.holding {
        None => {
        }
        Some(id) => {
            assert(Set::<u64>::empty().insert(id).len() <= 1);
        }
    }
}

/// One coordinate eased 5% of the way (rounded to the nearest whole step)
/// from `from` toward `to`.
pub open spec fn ease_coord_spec(from: i32, to: i32) -> int {
    if to >= from {
        from + (to - from + 10) / 20
    } else {
        from - (from - to + 10) / 20
    }
}

/// A position eased 5% of the way toward another.
pub open spec fn ease_pos_spec(from: Pos, to: Pos) -> Pos {
    Pos { x: ease_coord_spec(from.x, to.x) as i32, y: ease_coord_spec(from.y, to.y) as i32 }
}

/// Eases one coordinate; the result stays between the two inputs.
fn ease_coord(from: i32, to: i32) -> (r: i32)
    ensures
        r == ease_coord_spec(from, to),
        from <= to ==> from <= r <= to,
        to <= from ==> to <= r <= from,
{
    if to >= from {
        let d: u64 = (to as i64 - from as i64) as u64;
        let step: u64 = (d + 10) / 20;
        proof {
            assert(0 <= (d + 10) / 20 <= d) by (nonlinear_arith)
                requires d >= 0;
        }
        (from as i64 + step as i64) as i32
    } else {
        let d: u64 = (from as i64 - to as i64) as u64;
        let step: u64 = (d + 10) / 20;
        proof {
            assert(0 <= (d + 10) / 20 <= d) by (nonlinear_arith)
                requires d >= 0;
        }
        (from as i64 - step as i64) as i32
    }
}

/// Eases a position 5% of the way toward another; each coordinate stays
/// between the corresponding inputs.
pub fn ease_pos(from: &Pos, to: &Pos) -> (r: Pos)
    ensures
        r == ease_pos_spec(*from, *to),
{
    Pos { x: ease_coord(from.x, to.x), y: ease_coord(from.y, to.y) }
}

/// Squared Euclidean distance between two positions.
pub open spec fn dist_sq(a: Pos, b: Pos) -> int {
    (a.x - b.x) * (a.x - b.x) + (a.y - b.y) * (a.y - b.y)
}

/// Computes the squared distance between two positions.
fn dist_sq_exec(a: &Pos, b: &Pos) -> (d: i128)
    ensures
        d == dist_sq(*a, *b),
{
    let dx: i128 = a.x as i128 - b.x as i128;
    let dy: i128 = a.y as i128 - b.y as i128;
    proof {
        assert(0 <= dx * dx <= 0x10000000000000000 && 0 <= dy * dy <= 0x10000000000000000)
            by (nonlinear_arith)
            requires
                -0x100000000 <= dx <= 0x100000000,
                -0x100000000 <= dy <= 0x100000000;
    }
    dx * dx + dy * dy
}

/// Index of the first item whose square overlaps the collector square at
/// `c`, looking from `i` on; the item count when none does.
pub open spec fn first_item_over(items: Seq<Item>, c: Pos, i: int) -> int
    decreases items.len() - i when 0 <= i <= items.len()
{
    if i >= items.len() {
        items.len() as int
    } else if item_over(c, COLLECT_SIZE, items[i].pos, COLLECT_SIZE) {
        i
    } else {
        first_item_over(items, c, i + 1)
    }
}

/// Index of the item nearest to `c` among index `best` and the items from
/// `i` on; the earliest index wins ties.
pub open spec fn nearest_from(items: Seq<Item>, c: Pos, i: int, best: int) -> int
    decreases items.len() - i when 0 <= i <= items.len()
{
    if i >= items.len() {
        best
    } else if dist_sq(items[i].pos, c) < dist_sq(items[best].pos, c) {
        nearest_from(items, c, i + 1, i)
    } else {
        nearest_from(items, c, i + 1, best)
    }
}

/// Index of the item nearest to `c`; the earliest index wins ties.
pub open spec fn nearest_index(items: Seq<Item>, c: Pos) -> int {
    nearest_from(items, c, 1, 0)
}

/// The nearest item is at least as near as every item.
pub proof fn lemma_nearest_is_min(items: Seq<Item>, c: Pos)
    requires
        items.len() > 0,
    ensures
        0 <= nearest_index(items, c) < items.len(),
        forall|j: int| 0 <= j < items.len()
            ==> dist_sq(items[nearest_index(items, c)].pos, c) <= dist_sq(#[trigger] items[j].pos, c),
{
    lemma_nearest_from_min(items, c, 1, 0);
}

proof fn lemma_nearest_from_min(items: Seq<Item>, c: Pos, i: int, best: int)
    requires
        0 <= best < items.len(),
        0 <= i <= items.len(),
        forall|j: int| 0 <= j < i ==> dist_sq(items[best].pos, c) <= dist_sq(items[j].pos, c),
    ensures
        0 <= nearest_from(items, c, i, best) < items.len(),
        forall|j: int| 0 <= j < items.len()
            ==> dist_sq(items[nearest_from(items, c, i, best)].pos, c) <= dist_sq(#[trigger] items[j].pos, c),
    decreases items.len() - i,
{
    if i < items.len() {
        if dist_sq(items[i].pos, c) < dist_sq(items[best].pos, c) {
            lemma_nearest_from_min(items, c, i + 1, i);
        } else {
            lemma_nearest_from_min(items, c, i + 1, best);
        }
    }
}

/// An empty-handed collector standing over some item: it would pick that
/// item up, ending the collecting pass.
pub open spec fn would_pick(items: Seq<Item>, c: Collector) -> bool {
    &&& c.holding is None
    &&& first_item_over(items, c.pos, 0) < items.len()
}

/// Index of the first collector that would pick an item up, looking from
/// `i` on; the collector count when none would.
pub open spec fn first_picker(collectors: Seq<Collector>, items: Seq<Item>, i: int) -> int
    decreases collectors.len() - i when 0 <= i <= collectors.len()
{
    if i >= collectors.len() {
        collectors.len() as int
    } else if would_pick(items, collectors[i]) {
        i
    } else {
        first_picker(collectors, items, i + 1)
    }
}

/// What one frame of collecting does to one collector, given the items: a
/// carrying collector rests; otherwise it picks up the first overlapping
/// item, or eases toward the nearest item, or rests when there is none.
pub open spec fn collect_step(items: Seq<Item>, c: Collector) -> Collector {
    match c.holding {
        Some(_) => c,
        None => {
            if items.len() == 0 {
                c
            } else {
                let f = first_item_over(items, c.pos, 0);
                if f < items.len() {
                    Collector { holding: Some(items[f].id), pos: c.pos }
                } else {
                    Collector { holding: None, pos: ease_pos_spec(c.pos, items[nearest_index(items, c.pos)].pos) }
                }
            }
        }
    }
}

/// Index of the first item bearing `id`, looking from `i` on; the item
/// count when none does.
pub open spec fn first_index_with_id(items: Seq<Item>, id: u64, i: int) -> int
    decreases items.len() - i when 0 <= i <= items.len()
{
    if i >= items.len() {
        items.len() as int
    } else if items[i].id == id {
        i
    } else {
        first_index_with_id(items, id, i + 1)
    }
}

/// What one frame of delivering does to one carrying collector and to the
/// items: with its item live and exactly one target in the world, the
/// collector either delivers (the item is destroyed, the reference
/// released) on overlap with the target, or eases toward the target with
/// the item kept at its own position; with no target, or several, nothing
/// happens.
pub open spec fn drop_step(items: Seq<Item>, c: Collector, targets: Seq<Target>) -> (Seq<Item>, Collector) {
    match c.holding {
        None => (items, c),
        Some(id) => {
            let k = first_index_with_id(items, id, 0);
            if k >= items.len() || targets.len() != 1 {
                (items, c)
            } else if item_over(c.pos, COLLECT_SIZE, targets[0].pos, COLLECT_SIZE) {
                (items.remove(k), Collector { holding: None, pos: c.pos })
            } else {
                let np = ease_pos_spec(c.pos, targets[0].pos);
                (items.update(k, Item { id, pos: np }), Collector { holding: Some(id), pos: np })
            }
        }
    }
}

/// The items and collectors after the first `n` collectors have taken, in
/// order, one delivering step.
pub open spec fn drop_fold(items: Seq<Item>, collectors: Seq<Collector>, targets: Seq<Target>, n: int) -> (Seq<Item>, Seq<Collector>)
    decreases n when 0 <= n <= collectors.len()
{
    if n <= 0 {
        (items, collectors)
    } else {
        let prev = drop_fold(items, collectors, targets, n - 1);
        let stepped = drop_step(prev.0, collectors[n - 1], targets);
        (stepped.0, prev.1.update(n - 1, stepped.1))
    }
}

/// The fold touches only the collectors already stepped.
proof fn lemma_drop_fold_frame(items: Seq<Item>, collectors: Seq<Collector>, targets: Seq<Target>, n: int)
    requires
        0 <= n <= collectors.len(),
    ensures
        drop_fold(items, collectors, targets, n).1.len() == collectors.len(),
        forall|j: int| n <= j < collectors.len()
            ==> drop_fold(items, collectors, targets, n).1[j] == collectors[j],
    decreases n,
{
    if n > 0 {
        lemma_drop_fold_frame(items, collectors, targets, n - 1);
    }
}

/// The spot just below a source where it spawns an item.
pub open spec fn below_source(p: Pos) -> Pos {
    Pos { x: p.x, y: (p.y - SOURCE_DROP) as i32 }
}

/// The collector world: live items, the collectors, the sources and the
/// targets, plus the identifier the next spawned item will get.
pub struct World {
    pub items: Vec<Item>,
    pub collectors: Vec<Collector>,
    pub sources: Vec<Source>,
    pub targets: Vec<Target>,
    pub next_id: u64,
}

impl World {
    /// Item identifiers are distinct and below the next to be given out;
    /// fixed entities stay within the fixed-entity limit, moving ones
    /// within its spawn-offset headroom.
    pub open spec fn wf(self) -> bool {
        &&& forall|i: int, j: int| 0 <= i < j < self.items@.len() ==> self.items@[i].id != self.items@[j].id
        &&& forall|i: int| 0 <= i < self.items@.len() ==> self.items@[i].id < self.next_id
        &&& forall|i: int| 0 <= i < self.items@.len() ==> within(self.items@[i].pos, ITEM_LIMIT as int)
        &&& forall|i: int| 0 <= i < self.collectors@.len() ==> within(self.collectors@[i].pos, ITEM_LIMIT as int)
        &&& forall|i: int| 0 <= i < self.sources@.len() ==> within(self.sources@[i].pos, POS_LIMIT as int)
        &&& forall|i: int| 0 <= i < self.targets@.len() ==> within(self.targets@[i].pos, POS_LIMIT as int)
    }

    pub fn new() -> (w: World)
        ensures
            w.wf(),
            w.items@ =~= Seq::<Item>::empty(),
            w.collectors@ =~= Seq::<Collector>::empty(),
            w.sources@ =~= Seq::<Source>::empty(),
            w.targets@ =~= Seq::<Target>::empty(),
            w.next_id == 0,
    {
        World {
            items: Vec::new(),
            collectors: Vec::new(),
            sources: Vec::new(),
            targets: Vec::new(),
            next_id: 0,
        }
    }

    pub fn add_collector(&mut self, pos: Pos)
        requires
            old(self).wf(),
            within(pos, ITEM_LIMIT as int),
        ensures
            final(self).wf(),
            final(self).collectors@ == old(self).collectors@.push(Collector { holding: None, pos }),
            final(self).items@ == old(self).items@,
            final(self).sources@ == old(self).sources@,
            final(self).targets@ == old(self).targets@,
            final(self).next_id == old(self).next_id,
    {
        self.collectors.push(Collector { holding: None, pos });
    }

    pub fn add_source(&mut self, pos: Pos)
        requires
            old(self).wf(),
            within(pos, POS_LIMIT as int),
        ensures
            final(self).wf(),
            final(self).sources@ == old(self).sources@.push(Source { pos }),
            final(self).items@ == old(self).items@,
            final(self).collectors@ == old(self).collectors@,
            final(self).targets@ == old(self).targets@,
            final(self).next_id == old(self).next_id,
    {
        self.sources.push(Source::new(pos));
    }

    pub fn add_target(&mut self, pos: Pos)
        requires
            old(self).wf(),
            within(pos, POS_LIMIT as int),
        ensures
            final(self).wf(),
            final(self).targets@ == old(self).targets@.push(Target { pos }),
            final(self).items@ == old(self).items@,
            final(self).collectors@ == old(self).collectors@,
            final(self).sources@ == old(self).sources@,
            final(self).next_id == old(self).next_id,
    {
        self.targets.push(Target::new(pos));
    }

    /// One frame of spawning: when no item is left in the world, every
    /// source spawns one item just below itself, under a fresh identifier.
    pub fn spawn_item(&mut self)
        requires
            old(self).wf(),
            old(self).next_id + old(self).sources@.len() <= u64::MAX,
        ensures
            final(self).wf(),
            final(self).collectors@ == old(self).collectors@,
            final(self).sources@ == old(self).sources@,
            final(self).targets@ == old(self).targets@,
            old(self).items@.len() > 0 ==> {
                &&& final(self).items@ == old(self).items@
                &&& final(self).next_id == old(self).next_id
            },
            old(self).items@.len() == 0 ==> {
                &&& final(self).next_id == old(self).next_id + old(self).sources@.len()
                &&& final(self).items@.len() == old(self).sources@.len()
                &&& forall|k: int| 0 <= k < old(self).sources@.len()
                    ==> final(self).items@[k] == (Item {
                        id: (old(self).next_id + k) as u64,
                        pos: below_source(old(self).sources@[k].pos),
                    })
            },
    {
        if self.items.len() != 0 {
            return;
        }
        let n: usize = self.sources.len();
        let mut i: usize = 0;
        while i < n
            invariant
                0 <= i <= n,
                n == self.sources@.len(),
                self.sources@ == old(self).sources@,
                self.collectors@ == old(self).collectors@,
                self.targets@ == old(self).targets@,
                self.wf(),
                self.next_id == old(self).next_id + i,
                self.next_id + (n - i) <= u64::MAX,
                self.items@.len() == i,
                forall|k: int| 0 <= k < i ==> self.items@[k] == (Item {
                    id: (old(self).next_id + k) as u64,
                    pos: below_source(old(self).sources@[k].pos),
                }),
            decreases n - i,
        {
            let s = self.sources[i];
            let it = Item { id: self.next_id, pos: Pos { x: s.pos.x, y: s.pos.y - SOURCE_DROP } };
            self.items.push(it);
            self.next_id = self.next_id + 1;
            i = i + 1;
        }
    }

    /// One frame of collecting: collectors are visited in order; an
    /// empty-handed one eases 5% toward the nearest item, until the first
    /// collector standing over an item picks it up, which ends the pass.
    /// So at most one collector acquires an item per call, and only the
    /// first picker ever changes what it holds.
    pub fn collect_item(&mut self)
        requires
            old(self).wf(),
        ensures
            final(self).wf(),
            final(self).items@ == old(self).items@,
            final(self).sources@ == old(self).sources@,
            final(self).targets@ == old(self).targets@,
            final(self).next_id == old(self).next_id,
            final(self).collectors@.len() == old(self).collectors@.len(),
            forall|i: int| 0 <= i < old(self).collectors@.len()
                && i <= first_picker(old(self).collectors@, old(self).items@, 0)
                ==> final(self).collectors@[i] == collect_step(old(self).items@, old(self).collectors@[i]),
            forall|i: int| first_picker(old(self).collectors@, old(self).items@, 0) < i < old(self).collectors@.len()
                ==> final(self).collectors@[i] == old(self).collectors@[i],
            forall|i: int| 0 <= i < old(self).collectors@.len()
                && i != first_picker(old(self).collectors@, old(self).items@, 0)
                ==> final(self).collectors@[i].holding == old(self).collectors@[i].holding,
    {
        let n: usize = self.collectors.len();
        let mut i: usize = 0;
        while i < n
            invariant
                0 <= i <= n,
                n == self.collectors@.len(),
                n == old(self).collectors@.len(),
                self.items@ == old(self).items@,
                self.sources@ == old(self).sources@,
                self.targets@ == old(self).targets@,
                self.next_id == old(self).next_id,
                self.wf(),
                forall|k: int| 0 <= k < i ==> !would_pick(old(self).items@, old(self).collectors@[k]),
                forall|k: int| 0 <= k < i
                    ==> self.collectors@[k] == collect_step(old(self).items@, old(self).collectors@[k]),
                forall|k: int| i <= k < n ==> self.collectors@[k] == old(self).collectors@[k],
            decreases n - i,
        {
            let c = self.collectors[i];
            match c.holding {
                Some(_) => {
                }
                None => {
                    if self.items.len() > 0 {
                        let f = find_first_item_over(&self.items, &c.pos);
                        if f < self.items.len() {
                            self.collectors.set(i, Collector { holding: Some(self.items[f].id), pos: c.pos });
                            proof {
                                lemma_first_picker_from(old(self).collectors@, old(self).items@, 0, i as int);
                                assert forall|k: int| 0 <= k < i
                                    implies #[trigger] self.collectors@[k].holding == old(self).collectors@[k].holding by {
                                    lemma_non_picker_keeps_holding(old(self).items@, old(self).collectors@[k]);
                                }
                            }
                            return;
                        } else {
                            let ni = nearest_item(&self.items, &c.pos);
                            let np = ease_pos(&c.pos, &self.items[ni].pos);
                            self.collectors.set(i, Collector { holding: None, pos: np });
                        }
                    }
                }
            }
            i = i + 1;
        }
        proof {
            lemma_first_picker_from(old(self).collectors@, old(self).items@, 0, n as int);
            assert forall|k: int| 0 <= k < n
                implies #[trigger] self.collectors@[k].holding == old(self).collectors@[k].holding by {
                lemma_non_picker_keeps_holding(old(self).items@, old(self).collectors@[k]);
            }
        }
    }

    /// One frame of delivering: every carrying collector whose item is
    /// live takes one delivering step toward the sole target, when exactly
    /// one exists.
    pub fn drop_off_item(&mut self)
        requires
            old(self).wf(),
        ensures
            final(self).wf(),
            final(self).sources@ == old(self).sources@,
            final(self).targets@ == old(self).targets@,
            final(self).next_id == old(self).next_id,
            final(self).items@ == drop_fold(old(self).items@, old(self).collectors@, old(self).targets@, old(self).collectors@.len() as int).0,
            final(self).collectors@ == drop_fold(old(self).items@, old(self).collectors@, old(self).targets@, old(self).collectors@.len() as int).1,
    {
        let n: usize = self.collectors.len();
        let mut i: usize = 0;
        while i < n
            invariant
                0 <= i <= n,
                n == self.collectors@.len(),
                n == old(self).collectors@.len(),
                self.sources@ == old(self).sources@,
                self.targets@ == old(self).targets@,
                self.next_id == old(self).next_id,
                self.wf(),
                self.items@ == drop_fold(old(self).items@, old(self).collectors@, old(self).targets@, i as int).0,
                self.collectors@ == drop_fold(old(self).items@, old(self).collectors@, old(self).targets@, i as int).1,
            decreases n - i,
        {
            proof {
                lemma_drop_fold_frame(old(self).items@, old(self).collectors@, old(self).targets@, i as int);
            }
            let c = self.collectors[i];
            let ghost collectors_before = self.collectors@;
            match c.holding {
                None => {
                    proof {
                        assert(collectors_before.update(i as int, c) =~= collectors_before);
                    }
                }
                Some(id) => {
                    let k = find_item_index(&self.items, id);
                    if k < self.items.len() && self.targets.len() == 1 {
                        let t = self.targets[0];
                        if is_item_over(&c.pos, COLLECT_SIZE, &t.pos, COLLECT_SIZE) {
                            self.items.remove(k);
                            self.collectors.set(i, Collector { holding: None, pos: c.pos });
                        } else {
                            let np = ease_pos(&c.pos, &t.pos);
                            self.items.set(k, Item { id, pos: np });
                            self.collectors.set(i, Collector { holding: Some(id), pos: np });
                        }
                    } else {
                        proof {
                            assert(collectors_before.update(i as int, c) =~= collectors_before);
                        }
                    }
                }
            }
            i = i + 1;
        }
    }
}

/// Index of the first item overlapping the collector square at `c`, or the
/// item count.
fn find_first_item_over(items: &Vec<Item>, c: &Pos) -> (f: usize)
    ensures
        f == first_item_over(items@, *c, 0),
        f <= items@.len(),
        f < items@.len() ==> item_over(*c, COLLECT_SIZE, items@[f as int].pos, COLLECT_SIZE),
{
    let n: usize = items.len();
    let mut i: usize = 0;
    while i < n
        invariant
            0 <= i <= n,
            n == items@.len(),
            forall|k: int| 0 <= k < i ==> !item_over(*c, COLLECT_SIZE, items@[k].pos, COLLECT_SIZE),
        decreases n - i,
    {
        if is_item_over(c, COLLECT_SIZE, &items[i].pos, COLLECT_SIZE) {
            proof {
                lemma_first_item_over_from(items@, *c, 0, i as int);
            }
            return i;
        }
        i = i + 1;
    }
    proof {
        lemma_first_item_over_from(items@, *c, 0, n as int);
    }
    n
}

/// When no collector before `k` would pick an item up and `k` either would
/// or is the collector count, the scan from `i` stops at `k`.
proof fn lemma_first_picker_from(collectors: Seq<Collector>, items: Seq<Item>, i: int, k: int)
    requires
        0 <= i <= k <= collectors.len(),
        forall|j: int| i <= j < k ==> !would_pick(items, collectors[j]),
        k < collectors.len() ==> would_pick(items, collectors[k]),
    ensures
        first_picker(collectors, items, i) == k,
    decreases k - i,
{
    if i < k {
        lemma_first_picker_from(collectors, items, i + 1, k);
    }
}

/// A collector that would not pick an item up keeps what it holds through
/// its collecting step.
proof fn lemma_non_picker_keeps_holding(items: Seq<Item>, c: Collector)
    requires
        !would_pick(items, c),
    ensures
        collect_step(items, c).holding == c.holding,
{
}

/// When no item before `k` overlaps and `k` either overlaps or is the item
/// count, the scan from `i` stops at `k`.
proof fn lemma_first_item_over_from(items: Seq<Item>, c: Pos, i: int, k: int)
    requires
        0 <= i <= k <= items.len(),
        forall|j: int| i <= j < k ==> !item_over(c, COLLECT_SIZE, items[j].pos, COLLECT_SIZE),
        k < items.len() ==> item_over(c, COLLECT_SIZE, items[k].pos, COLLECT_SIZE),
    ensures
        first_item_over(items, c, i) == k,
    decreases k - i,
{
    if i < k {
        lemma_first_item_over_from(items, c, i + 1, k);
    }
}

/// Index of the item nearest to `c`; the earliest index wins ties.
fn nearest_item(items: &Vec<Item>, c: &Pos) -> (ni: usize)
    requires
        items@.len() > 0,
    ensures
        ni == nearest_index(items@, *c),
        0 <= ni < items@.len(),
{
    let n: usize = items.len();
    let mut best: usize = 0;
    let mut i: usize = 1;
    let mut best_d: i128 = dist_sq_exec(&items[0].pos, c);
    while i < n
        invariant
            1 <= i <= n,
            0 <= best < i,
            n == items@.len(),
            best_d == dist_sq(items@[best as int].pos, *c),
            nearest_from(items@, *c, i as int, best as int) == nearest_index(items@, *c),
        decreases n - i,
    {
        let d = dist_sq_exec(&items[i].pos, c);
        if d < best_d {
            best = i;
            best_d = d;
        }
        i = i + 1;
    }
    best
}

/// Index of the first item bearing `id`, or the item count.
fn find_item_index(items: &Vec<Item>, id: u64) -> (k: usize)
    ensures
        k == first_index_with_id(items@, id, 0),
        k <= items@.len(),
        k < items@.len() ==> items@[k as int].id == id,
{
    let n: usize = items.len();
    let mut i: usize = 0;
    while i < n
        invariant
            0 <= i <= n,
            n == items@.len(),
            forall|k: int| 0 <= k < i ==> items@[k].id != id,
        decreases n - i,
    {
        if items[i].id == id {
            proof {
                lemma_first_index_with_id_from(items@, id, 0, i as int);
            }
            return i;
        }
        i = i + 1;
    }
    proof {
        lemma_first_index_with_id_from(items@, id, 0, n as int);
    }
    n
}

/// When no item before `k` bears the identifier and `k` either bears it or
/// is the item count, the scan from `i` stops at `k`.
proof fn lemma_first_index_with_id_from(items: Seq<Item>, id: u64, i: int, k: int)
    requires
        0 <= i <= k <= items.len(),
        forall|j: int| i <= j < k ==> items[j].id != id,
        k < items.len() ==> items[k].id == id,
    ensures
        first_index_with_id(items, id, i) == k,
    decreases k - i,
{
    if i < k {
        lemma_first_index_with_id_from(items, id, i + 1, k);
    }
}

} // verus!
