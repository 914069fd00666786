//! The conveyor-belt prototype: fixed tiles, each with an immutable
//! direction, and items that a repeating timer pushes one tile-width along
//! the first tile they overlap.

use vstd::prelude::*;
use crate::geometry::{Pos, item_over, is_item_over, within, POS_LIMIT};

verus! {

/// Side length of a conveyor tile, and the distance an item is pushed.
pub const CONVEYOR_SIZE: u32 = 32;

/// Side length of an item on the belt.
pub const ITEM_SIZE: u32 = 20;

/// Milliseconds between two firings of the movement timer.
pub const PERIOD_MS: u64 = 500;

/// The fixed direction a conveyor tile pushes items in.
#[allow(non_camel_case_types)]
#[derive(Clone, Copy, PartialEq, Eq, Structural, Debug)]
pub enum Dir {
    UP,
    DOWN,
    LEFT,
    RIGHT,
}

/// A belt tile: a fixed square that pushes overlapping items its way.
#[derive(Clone, Copy, PartialEq, Eq, Structural, Debug)]
pub struct ConveyorTile {
    pub direction: Dir,
    pub pos: Pos,
}

impl ConveyorTile {
    pub fn new(direction: Dir, pos: Pos) -> (t: ConveyorTile)
        ensures
            t == (ConveyorTile { direction, pos }),
    {
        ConveyorTile { direction, pos }
    }
}

/// An item riding the belt; `moving` records whether the last timer firing
/// displaced it, and is cleared at the start of the next firing.
#[derive(Clone, Copy, PartialEq, Eq, Structural, Debug)]
pub struct Item {
    pub moving: bool,
    pub pos: Pos,
}

impl Item {
    pub fn new(pos: Pos) -> (it: Item)
        ensures
            it == (Item { moving: false, pos }),
    {
        Item { moving: false, pos }
    }
}

/// How far a tile direction displaces an item along the x axis.
pub open spec fn dir_dx(d: Dir) -> int {
    match d {
        Dir::UP => 0,
        Dir::DOWN => 0,
        Dir::LEFT => -(CONVEYOR_SIZE as int),
        Dir::RIGHT => CONVEYOR_SIZE as int,
    }
}

/// How far a tile direction displaces an item along the y axis.
pub open spec fn dir_dy(d: Dir) -> int {
    match d {
        Dir::UP => CONVEYOR_SIZE as int,
        Dir::DOWN => -(CONVEYOR_SIZE as int),
        Dir::LEFT => 0,
        Dir::RIGHT => 0,
    }
}

/// The position one tile-width away in direction `d`.
pub open spec fn displaced(p: Pos, d: Dir) -> Pos {
    Pos { x: (p.x + dir_dx(d)) as i32, y: (p.y + dir_dy(d)) as i32 }
}

/// Index of the first tile whose square the item's square overlaps, looking
/// from `i` on; the tile count when none does.
pub open spec fn first_overlapping_tile(tiles: Seq<ConveyorTile>, item: Pos, i: int) -> int
    decreases tiles.len() - i when 0 <= i <= tiles.len()
{
    if i >= tiles.len() {
        tiles.len() as int
    } else if item_over(tiles[i].pos, CONVEYOR_SIZE, item, ITEM_SIZE) {
        i
    } else {
        first_overlapping_tile(tiles, item, i + 1)
    }
}

/// What one timer firing does to one item: its moved flag is cleared, then
/// the first overlapping tile, if any, pushes it one tile-width and marks it
/// moved.
pub open spec fn ticked_item(tiles: Seq<ConveyorTile>, it: Item) -> Item {
    let f = first_overlapping_tile(tiles, it.pos, 0);
    if f < tiles.len() {
        Item { moving: true, pos: displaced(it.pos, tiles[f].direction) }
    } else {
        Item { moving: false, pos: it.pos }
    }
}

/// The conveyor world: the fixed tiles, the items riding them, and the
/// elapsed time of the movement timer.
pub struct World {
    pub tiles: Vec<ConveyorTile>,
    pub items: Vec<Item>,
    pub elapsed_ms: u64,
}

impl World {
    /// Tiles stay within the fixed-entity limit, so a push near a tile stays
    /// within `i32`, and the timer never holds a full period.
    pub open spec fn wf(self) -> bool {
        &&& forall|i: int| 0 <= i < self.tiles@.len() ==> within(self.tiles@[i].pos, POS_LIMIT as int)
        &&& self.elapsed_ms < PERIOD_MS
    }

    pub fn new() -> (w: World)
        ensures
            w.wf(),
            w.tiles@ =~= Seq::<ConveyorTile>::empty(),
            w.items@ =~= Seq::<Item>::empty(),
            w.elapsed_ms == 0,
    {
        World { tiles: Vec::new(), items: Vec::new(), elapsed_ms: 0 }
    }

    pub fn add_tile(&mut self, direction: Dir, pos: Pos)
        requires
            old(self).wf(),
            within(pos, POS_LIMIT as int),
        ensures
            final(self).wf(),
            final(self).tiles@ == old(self).tiles@.push(ConveyorTile { direction, pos }),
            final(self).items == old(self).items,
            final(self).elapsed_ms == old(self).elapsed_ms,
    {
        self.tiles.push(ConveyorTile::new(direction, pos));
    }

    pub fn add_item(&mut self, pos: Pos)
        requires
            old(self).wf(),
        ensures
            final(self).wf(),
            final(self).items@ == old(self).items@.push(Item { moving: false, pos }),
            final(self).tiles == old(self).tiles,
            final(self).elapsed_ms == old(self).elapsed_ms,
    {
        self.items.push(Item::new(pos));
    }

    /// Advances the movement timer by `delta_ms`. When a period completes,
    /// the timer keeps the remainder and every item takes one belt step:
    /// cleared flag, then one push from the first overlapping tile, if any.
    /// Before the period completes, nothing moves.
    pub fn conveyor(&mut self, delta_ms: u64)
        requires
            old(self).wf(),
            delta_ms <= u64::MAX - PERIOD_MS,
        ensures
            final(self).wf(),
            final(self).tiles@ == old(self).tiles@,
            old(self).elapsed_ms + delta_ms < PERIOD_MS ==> {
                &&& final(self).items@ == old(self).items@
                &&& final(self).elapsed_ms == old(self).elapsed_ms + delta_ms
            },
            old(self).elapsed_ms + delta_ms >= PERIOD_MS ==> {
                &&& final(self).elapsed_ms == (old(self).elapsed_ms + delta_ms) % (PERIOD_MS as int)
                &&& final(self).items@.len() == old(self).items@.len()
                &&& forall|i: int| 0 <= i < old(self).items@.len()
                    ==> final(self).items@[i] == ticked_item(old(self).tiles@, old(self).items@[i])
            },
    {
        let total: u64 = self.elapsed_ms + delta_ms;
        if total < PERIOD_MS {
            self.elapsed_ms = total;
        } else {
            self.elapsed_ms = total % PERIOD_MS;
            let ghost tiles0 = self.tiles@;
            let ghost items0 = self.items@;
            let n: usize = self.items.len();
            let mut i: usize = 0;
            while i < n
                invariant
                    tiles0 == old(self).tiles@,
                    items0 == old(self).items@,
                    n == items0.len(),
                    0 <= i <= n,
                    self.tiles@ == tiles0,
                    self.items@.len() == n,
                    self.elapsed_ms == (old(self).elapsed_ms + delta_ms) % (PERIOD_MS as int),
                    self.elapsed_ms < PERIOD_MS,
                    forall|k: int| 0 <= k < self.tiles@.len() ==> within(self.tiles@[k].pos, POS_LIMIT as int),
                    forall|k: int| 0 <= k < i ==> self.items@[k] == ticked_item(tiles0, items0[k]),
                    forall|k: int| i <= k < n ==> self.items@[k] == items0[k],
                decreases n - i,
            {
                let it = self.items[i];
                let f = self.first_tile_over(&it.pos);
                if f < self.tiles.len() {
                    let tile = self.tiles[f];
                    let np = push_from(&it.pos, &tile);
                    self.items.set(i, Item { moving: true, pos: np });
                } else {
                    self.items.set(i, Item { moving: false, pos: it.pos });
                }
                i = i + 1;
            }
        }
    }

    /// Index of the first tile the item overlaps, or the tile count.
    fn first_tile_over(&self, item: &Pos) -> (f: usize)
        ensures
            f == first_overlapping_tile(self.tiles@, *item, 0),
            f <= self.tiles@.len(),
            f < self.tiles@.len() ==> item_over(self.tiles@[f as int].pos, CONVEYOR_SIZE, *item, ITEM_SIZE),
    {
        let n: usize = self.tiles.len();
        let mut i: usize = 0;
        while i < n
            invariant
                0 <= i <= n,
                n == self.tiles@.len(),
                forall|k: int| 0 <= k < i ==> !item_over(self.tiles@[k].pos, CONVEYOR_SIZE, *item, ITEM_SIZE),
            decreases n - i,
        {
            if is_item_over(&self.tiles[i].pos, CONVEYOR_SIZE, item, ITEM_SIZE) {
                proof {
                    lemma_first_overlapping_tile_at(self.tiles@, *item, i as int);
                }
                return i;
            }
            i = i + 1;
        }
        proof {
            lemma_first_overlapping_tile_at(self.tiles@, *item, n as int);
        }
        n
    }
}

/// When no tile before `k` overlaps and `k` either overlaps or is the tile
/// count, `k` is the first overlapping index.
proof fn lemma_first_overlapping_tile_at(tiles: Seq<ConveyorTile>, item: Pos, k: int)
    requires
        0 <= k <= tiles.len(),
        forall|j: int| 0 <= j < k ==> !item_over(tiles[j].pos, CONVEYOR_SIZE, item, ITEM_SIZE),
        k < tiles.len() ==> item_over(tiles[k].pos, CONVEYOR_SIZE, item, ITEM_SIZE),
    ensures
        first_overlapping_tile(tiles, item, 0) == k,
    decreases k,
{
    lemma_first_overlapping_tile_from(tiles, item, 0, k);
}

/// Generalization of the above over the start index of the scan.
proof fn lemma_first_overlapping_tile_from(tiles: Seq<ConveyorTile>, item: Pos, i: int, k: int)
    requires
        0 <= i <= k <= tiles.len(),
        forall|j: int| i <= j < k ==> !item_over(tiles[j].pos, CONVEYOR_SIZE, item, ITEM_SIZE),
        k < tiles.len() ==> item_over(tiles[k].pos, CONVEYOR_SIZE, item, ITEM_SIZE),
    ensures
        first_overlapping_tile(tiles, item, i) == k,
    decreases k - i,
{
    if i < k {
        lemma_first_overlapping_tile_from(tiles, item, i + 1, k);
    }
}

/// One belt push of the item from a tile it overlaps; overlap keeps the
/// item near the in-limit tile, so the pushed position fits `i32`.
fn push_from(item: &Pos, tile: &ConveyorTile) -> (np: Pos)
    requires
        within(tile.pos, POS_LIMIT as int),
        item_over(tile.pos, CONVEYOR_SIZE, *item, ITEM_SIZE),
    ensures
        np == displaced(*item, tile.direction),
{
    let dx: i32 = match tile.direction {
        Dir::UP => 0,
        Dir::DOWN => 0,
        Dir::LEFT => -(CONVEYOR_SIZE as i32),
        Dir::RIGHT => CONVEYOR_SIZE as i32,
    };
    let dy: i32 = match tile.direction {
        Dir::UP => CONVEYOR_SIZE as i32,
        Dir::DOWN => -(CONVEYOR_SIZE as i32),
        Dir::LEFT => 0,
        Dir::RIGHT => 0,
    };
    Pos { x: item.x + dx, y: item.y + dy }
}

/// Rotation, in whole degrees counter-clockwise, of a tile sprite drawn
/// facing right.
pub fn rotation(dir: Dir) -> (deg: i32)
    ensures
        dir == Dir::UP ==> deg == 90,
        dir == Dir::DOWN ==> deg == -90,
        dir == Dir::LEFT ==> deg == 180,
        dir == Dir::RIGHT ==> deg == 0,
{
    match dir {
        Dir::UP => 90,
        Dir::DOWN => -90,
        Dir::LEFT => 180,
        Dir::RIGHT => 0,
    }
}

/// One timer period moves an item overlapping exactly one tile by exactly
/// one tile-width in that tile's direction, and marks it moved; an item
/// overlapping no tile does not move.
pub proof fn lemma_single_tile_moves_once(tiles: Seq<ConveyorTile>, it: Item, j: int)
    requires
        0 <= j < tiles.len(),
        item_over(tiles[j].pos, CONVEYOR_SIZE, it.pos, ITEM_SIZE),
        forall|k: int| 0 <= k < tiles.len() && k != j
            ==> !item_over(tiles[k].pos, CONVEYOR_SIZE, it.pos, ITEM_SIZE),
    ensures
        ticked_item(tiles, it) == (Item { moving: true, pos: displaced(it.pos, tiles[j].direction) }),
{
    lemma_first_overlapping_tile_from(tiles, it.pos, 0, j);
}

} // verus!
