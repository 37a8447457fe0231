//! Plain-value snapshot of the world state the host hands over each tick:
//! live workers, production facilities, rooms, resource nodes and dropped
//! resource piles. The caller rebuilds this snapshot every tick; entity ids
//! and worker names are the stable references, never live handles.

use vstd::prelude::*;

verus! {

/// Stable id of a stationary entity (facility, resource node, pile).
pub type EntityId = u128;

/// A grid position inside a room.
#[derive(Clone, Copy, PartialEq, Eq, Structural, Debug)]
pub struct Pos {
    pub x: u32,
    pub y: u32,
}

/// Chebyshev distance between two positions: the number of steps a worker
/// needs to walk from one to the other, diagonals allowed.
pub open spec fn spec_range(a: Pos, b: Pos) -> int {
    let dx = if a.x >= b.x { a.x - b.x } else { b.x - a.x };
    let dy = if a.y >= b.y { a.y - b.y } else { b.y - a.y };
    if dx >= dy { dx } else { dy }
}

/// Two positions are near when they are at most one step apart (a worker
/// can act on an adjacent or identical square).
pub open spec fn spec_near(a: Pos, b: Pos) -> bool {
    spec_range(a, b) <= 1
}

impl Pos {
    /// Chebyshev distance to another position.
    pub fn range_to(&self, other: &Pos) -> (r: u32)
        ensures
            r == spec_range(*self, *other),
    {
        let dx = if self.x >= other.x { self.x - other.x } else { other.x - self.x };
        let dy = if self.y >= other.y { self.y - other.y } else { other.y - self.y };
        if dx >= dy { dx } else { dy }
    }

    /// Whether another position is at most one step away.
    pub fn is_near_to(&self, other: &Pos) -> (r: bool)
        ensures
            r == spec_near(*self, *other),
    {
        self.range_to(other) <= 1
    }
}

/// One live worker as the snapshot reports it.
pub struct WorkerInfo {
    pub name: String,
    pub pos: Pos,
    /// The worker is still mid-production and cannot take orders.
    pub spawning: bool,
    /// How much more resource the worker could carry.
    pub free_capacity: u32,
}

/// One production facility as the snapshot reports it.
pub struct FacilityInfo {
    pub id: EntityId,
    pub pos: Pos,
    /// The facility is mid-production and cannot take another order.
    pub busy: bool,
}

/// One room's resource figures as the snapshot reports them.
pub struct RoomInfo {
    pub name: String,
    /// Resource on hand right now for production.
    pub energy_available: u32,
    /// Full production capacity of the room when topped up.
    pub energy_capacity: u32,
}

/// One resource node as the snapshot reports it.
pub struct NodeInfo {
    pub id: EntityId,
    pub pos: Pos,
}

/// One dropped resource pile as the snapshot reports it.
pub struct PileInfo {
    pub id: EntityId,
    pub pos: Pos,
}

/// Fresh snapshot of world state for one tick.
pub struct World {
    pub tick: u32,
    pub workers: Vec<WorkerInfo>,
    pub facilities: Vec<FacilityInfo>,
    pub rooms: Vec<RoomInfo>,
    pub nodes: Vec<NodeInfo>,
    pub piles: Vec<PileInfo>,
}

impl World {
    /// Snapshot keys are unique: each worker name, facility id, room name
    /// and node id occurs at most once.
    pub open spec fn wf(self) -> bool {
        &&& forall|i: int, j: int|
            0 <= i < j < self.workers@.len() ==> self.workers@[i].name@ != self.workers@[j].name@
        &&& forall|i: int, j: int|
            0 <= i < j < self.facilities@.len() ==> self.facilities@[i].id != self.facilities@[j].id
        &&& forall|i: int, j: int|
            0 <= i < j < self.rooms@.len() ==> self.rooms@[i].name@ != self.rooms@[j].name@
        &&& forall|i: int, j: int|
            0 <= i < j < self.nodes@.len() ==> self.nodes@[i].id != self.nodes@[j].id
    }

    pub open spec fn spec_has_worker(self, name: Seq<char>) -> bool {
        exists|i: int| 0 <= i < self.workers@.len() && self.workers@[i].name@ == name
    }

    pub open spec fn spec_worker(self, name: Seq<char>) -> WorkerInfo {
        self.workers@[choose|i: int|
            0 <= i < self.workers@.len() && self.workers@[i].name@ == name]
    }

    pub open spec fn spec_has_facility(self, id: EntityId) -> bool {
        exists|i: int| 0 <= i < self.facilities@.len() && self.facilities@[i].id == id
    }

    pub open spec fn spec_facility(self, id: EntityId) -> FacilityInfo {
        self.facilities@[choose|i: int|
            0 <= i < self.facilities@.len() && self.facilities@[i].id == id]
    }

    pub open spec fn spec_has_room(self, name: Seq<char>) -> bool {
        exists|i: int| 0 <= i < self.rooms@.len() && self.rooms@[i].name@ == name
    }

    pub open spec fn spec_room(self, name: Seq<char>) -> RoomInfo {
        self.rooms@[choose|i: int|
            0 <= i < self.rooms@.len() && self.rooms@[i].name@ == name]
    }

    pub open spec fn spec_has_node(self, id: EntityId) -> bool {
        exists|i: int| 0 <= i < self.nodes@.len() && self.nodes@[i].id == id
    }

    pub open spec fn spec_node(self, id: EntityId) -> NodeInfo {
        self.nodes@[choose|i: int|
            0 <= i < self.nodes@.len() && self.nodes@[i].id == id]
    }

    /// Looks up the live worker with the given name.
    pub fn worker<'a>(&'a self, name: &String) -> (r: Option<&'a WorkerInfo>)
        requires
            self.wf(),
        ensures
            r is Some <==> self.spec_has_worker(name@),
            r matches Some(w) ==> *w == self.spec_worker(name@) && w.name@ == name@,
    {
        let n = self.workers.len();
        let mut i: usize = 0;
        while i < n
            invariant
                n == self.workers@.len(),
                0 <= i <= n,
                self.wf(),
                forall|k: int| 0 <= k < i ==> self.workers@[k].name@ != name@,
            decreases n - i,
        {
            if self.workers[i].name.eq(name) {
                proof {
                    let j = choose|j: int|
                        0 <= j < self.workers@.len() && self.workers@[j].name@ == name@;
                    assert(j == i as int);
                }
                return Some(&self.workers[i]);
            }
            i = i + 1;
        }
        None
    }

    /// Looks up the facility with the given id.
    pub fn facility<'a>(&'a self, id: EntityId) -> (r: Option<&'a FacilityInfo>)
        requires
            self.wf(),
        ensures
            r is Some <==> self.spec_has_facility(id),
            r matches Some(f) ==> *f == self.spec_facility(id) && f.id == id,
    {
        let n = self.facilities.len();
        let mut i: usize = 0;
        while i < n
            invariant
                n == self.facilities@.len(),
                0 <= i <= n,
                self.wf(),
                forall|k: int| 0 <= k < i ==> self.facilities@[k].id != id,
            decreases n - i,
        {
            if self.facilities[i].id == id {
                return Some(&self.facilities[i]);
            }
            i = i + 1;
        }
        None
    }

    /// Looks up the room with the given name.
    pub fn room<'a>(&'a self, name: &String) -> (r: Option<&'a RoomInfo>)
        requires
            self.wf(),
        ensures
            r is Some <==> self.spec_has_room(name@),
            r matches Some(ri) ==> *ri == self.spec_room(name@) && ri.name@ == name@,
    {
        let n = self.rooms.len();
        let mut i: usize = 0;
        while i < n
            invariant
                n == self.rooms@.len(),
                0 <= i <= n,
                self.wf(),
                forall|k: int| 0 <= k < i ==> self.rooms@[k].name@ != name@,
            decreases n - i,
        {
            if self.rooms[i].name.eq(name) {
                proof {
                    let j = choose|j: int|
                        0 <= j < self.rooms@.len() && self.rooms@[j].name@ == name@;
                    assert(j == i as int);
                }
                return Some(&self.rooms[i]);
            }
            i = i + 1;
        }
        None
    }

    /// Looks up the resource node with the given id.
    pub fn node<'a>(&'a self, id: EntityId) -> (r: Option<&'a NodeInfo>)
        requires
            self.wf(),
        ensures
            r is Some <==> self.spec_has_node(id),
            r matches Some(nd) ==> *nd == self.spec_node(id) && nd.id == id,
    {
        let n = self.nodes.len();
        let mut i: usize = 0;
        while i < n
            invariant
                n == self.nodes@.len(),
                0 <= i <= n,
                self.wf(),
                forall|k: int| 0 <= k < i ==> self.nodes@[k].id != id,
            decreases n - i,
        {
            if self.nodes[i].id == id {
                return Some(&self.nodes[i]);
            }
            i = i + 1;
        }
        None
    }

    /// Whether any dropped pile lies on the given position.
    pub open spec fn spec_has_pile_at(self, pos: Pos) -> bool {
        exists|i: int| 0 <= i < self.piles@.len() && self.piles@[i].pos == pos
    }

    /// The first dropped pile on the given position, in the order the
    /// snapshot lists them.
    pub fn first_pile_at<'a>(&'a self, pos: &Pos) -> (r: Option<&'a PileInfo>)
        ensures
            r is Some <==> self.spec_has_pile_at(*pos),
            r matches Some(p) ==> exists|i: int|
                0 <= i < self.piles@.len() && self.piles@[i] == *p && self.piles@[i].pos == *pos
                    && (forall|k: int| 0 <= k < i ==> self.piles@[k].pos != *pos),
    {
        let n = self.piles.len();
        let mut i: usize = 0;
        while i < n
            invariant
                n == self.piles@.len(),
                0 <= i <= n,
                forall|k: int| 0 <= k < i ==> self.piles@[k].pos != *pos,
            decreases n - i,
        {
            if self.piles[i].pos == *pos {
                return Some(&self.piles[i]);
            }
            i = i + 1;
        }
        None
    }
}

} // verus!
