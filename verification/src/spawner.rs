//! The spawner prototype: fixed spawners that each frame try to create an
//! item a fixed offset below themselves, unless an item already occupies
//! that spot.

use vstd::prelude::*;
use crate::geometry::{Pos, pos_over, is_pos_over, within, POS_LIMIT};

verus! {

/// Side length of a spawned item, used by the occupancy check.
pub const ITEM_SIZE: u32 = 10;

/// How far below itself a spawner places a new item.
pub const SPAWN_DROP: i32 = 40;

/// A spawned item: a square at a fixed spot.
#[derive(Clone, Copy, PartialEq, Eq, Structural, Debug)]
pub struct Item {
    pub pos: Pos,
}

impl Item {
    pub fn new(pos: Pos) -> (it: Item)
        ensures
            it == (Item { pos }),
    {
        Item { pos }
    }
}

/// A fixed spawner; it creates items just below its own position.
#[derive(Clone, Copy, PartialEq, Eq, Structural, Debug)]
pub struct Spawner {
    pub pos: Pos,
}

/// The spot where a spawner places a new item.
pub open spec fn spawn_point(p: Pos) -> Pos {
    Pos { x: p.x, y: (p.y - SPAWN_DROP) as i32 }
}

/// Some existing item's square already covers the candidate spot.
pub open spec fn occupied(items: Seq<Item>, pt: Pos) -> bool {
    exists|i: int| 0 <= i < items.len() && pos_over(pt, items[i].pos, ITEM_SIZE)
}

/// The items after the first `n` spawners have attempted, in order, to
/// place an item below themselves: each appends one item at its spawn
/// point unless that spot is already occupied by then.
pub open spec fn spawn_fold(items: Seq<Item>, spawners: Seq<Spawner>, n: int) -> Seq<Item>
    decreases n when 0 <= n <= spawners.len()
{
    if n <= 0 {
        items
    } else {
        let prev = spawn_fold(items, spawners, n - 1);
        let pt = spawn_point(spawners[n - 1].pos);
        if occupied(prev, pt) {
            prev
        } else {
            prev.push(Item { pos: pt })
        }
    }
}

impl Spawner {
    pub fn new(pos: Pos) -> (s: Spawner)
        ensures
            s == (Spawner { pos }),
    {
        Spawner { pos }
    }

    /// One spawn attempt: appends an item at this spawner's spawn point
    /// unless an existing item's square already covers that spot.
    pub fn spawn(&self, items: &mut Vec<Item>)
        requires
            within(self.pos, POS_LIMIT as int),
        ensures
            occupied(old(items)@, spawn_point(self.pos)) ==> final(items)@ == old(items)@,
            !occupied(old(items)@, spawn_point(self.pos))
                ==> final(items)@ == old(items)@.push(Item { pos: spawn_point(self.pos) }),
    {
        let pt = Pos { x: self.pos.x, y: self.pos.y - SPAWN_DROP };
        if !is_occupied(items, &pt) {
            items.push(Item { pos: pt });
        }
    }
}

/// Whether some item's square covers the point `pt`.
fn is_occupied(items: &Vec<Item>, pt: &Pos) -> (r: bool)
    ensures
        r == occupied(items@, *pt),
{
    let n: usize = items.len();
    let mut i: usize = 0;
    while i < n
        invariant
            0 <= i <= n,
            n == items@.len(),
            forall|k: int| 0 <= k < i ==> !pos_over(*pt, items@[k].pos, ITEM_SIZE),
        decreases n - i,
    {
        if is_pos_over(pt, &items[i].pos, ITEM_SIZE) {
            return true;
        }
        i = i + 1;
    }
    false
}

/// The spawner world: the fixed spawners and the items they have placed.
pub struct World {
    pub spawners: Vec<Spawner>,
    pub items: Vec<Item>,
}

impl World {
    /// Spawners stay within the fixed-entity limit, so their spawn points
    /// fit `i32`.
    pub open spec fn wf(self) -> bool {
        forall|i: int| 0 <= i < self.spawners@.len() ==> within(self.spawners@[i].pos, POS_LIMIT as int)
    }

    pub fn new() -> (w: World)
        ensures
            w.wf(),
            w.spawners@ =~= Seq::<Spawner>::empty(),
            w.items@ =~= Seq::<Item>::empty(),
    {
        World { spawners: Vec::new(), items: Vec::new() }
    }

    pub fn add_spawner(&mut self, pos: Pos)
        requires
            old(self).wf(),
            within(pos, POS_LIMIT as int),
        ensures
            final(self).wf(),
            final(self).spawners@ == old(self).spawners@.push(Spawner { pos }),
            final(self).items@ == old(self).items@,
    {
        self.spawners.push(Spawner::new(pos));
    }

    pub fn add_item(&mut self, pos: Pos)
        requires
            old(self).wf(),
        ensures
            final(self).wf(),
            final(self).items@ == old(self).items@.push(Item { pos }),
            final(self).spawners@ == old(self).spawners@,
    {
        self.items.push(Item::new(pos));
    }

    /// One frame of the spawner prototype: every spawner, in order,
    /// attempts one spawn.
    pub fn spawn_loop(&mut self)
        requires
            old(self).wf(),
        ensures
            final(self).wf(),
            final(self).spawners@ == old(self).spawners@,
            final(self).items@ == spawn_fold(old(self).items@, old(self).spawners@, old(self).spawners@.len() as int),
    {
        let n: usize = self.spawners.len();
        let mut i: usize = 0;
        while i < n
            invariant
                0 <= i <= n,
                n == self.spawners@.len(),
                self.spawners@ == old(self).spawners@,
                forall|k: int| 0 <= k < n ==> within(self.spawners@[k].pos, POS_LIMIT as int),
                self.items@ == spawn_fold(old(self).items@, old(self).spawners@, i as int),
            decreases n - i,
        {
            let s = self.spawners[i];
            s.spawn(&mut self.items);
            i = i + 1;
        }
    }
}

} // verus!
