//! Facility pool of one colony location: the production-facility ids that
//! belong to one room, plus a tick-scoped availability cache. The cache is
//! recomputed at most once per tick and consumed destructively (pop), so
//! several allocation requests within one tick never receive the same
//! facility.

use vstd::prelude::*;

use crate::world::EntityId;
use crate::world::World;

verus! {

/// What kind of structure a room-scan entry is.
#[derive(Clone, Copy, PartialEq, Eq, Structural, Debug)]
pub enum StructureKind {
    SpawnKind,
    ExtensionKind,
    OtherKind,
}

/// One structure of a room scan, as the caller collected it.
pub struct StructureInfo {
    pub id: EntityId,
    pub kind: StructureKind,
}

/// Tick-stamped availability cache: which facilities were idle when the
/// stamp's tick was current, minus those already handed out this tick.
pub struct SpawnCache {
    pub tick: u32,
    pub stack: Option<Vec<EntityId>>,
}

/// Facility pool of one room.
pub struct SpawnRoom {
    pub room_name: String,
    pub spawn_ids: Vec<EntityId>,
    pub extension_ids: Vec<EntityId>,
    pub available_spawn_cache: SpawnCache,
}

/// The ids of the scan entries of one kind, in reverse scan order (each
/// match is prepended, as the pool stores them).
pub open spec fn spec_kind_ids(s: Seq<StructureInfo>, k: StructureKind) -> Seq<EntityId>
    decreases s.len(),
{
    if s.len() == 0 {
        Seq::empty()
    } else {
        let rest = spec_kind_ids(s.drop_last(), k);
        if s.last().kind == k {
            seq![s.last().id] + rest
        } else {
            rest
        }
    }
}

/// The availability stack a fresh cache computation yields: the stored
/// facility ids that are idle in the world, in storage order (the pop
/// takes the back first).
pub open spec fn spec_idle_stack(ids: Seq<EntityId>, world: World) -> Seq<EntityId>
    decreases ids.len(),
{
    if ids.len() == 0 {
        Seq::empty()
    } else {
        let rest = spec_idle_stack(ids.drop_last(), world);
        if world.spec_has_facility(ids.last()) && !world.spec_facility(ids.last()).busy {
            rest.push(ids.last())
        } else {
            rest
        }
    }
}

/// The stack an allocation request draws from: the cached stack while the
/// stamp is current, a fresh computation otherwise.
pub open spec fn spec_cache_stack(c: SpawnCache, ids: Seq<EntityId>, world: World) -> Seq<
    EntityId,
> {
    if c.tick != world.tick {
        spec_idle_stack(ids, world)
    } else {
        match c.stack {
            Some(v) => v@,
            None => spec_idle_stack(ids, world),
        }
    }
}

/// Some scan entry carries the given structure id.
pub open spec fn spec_has_structure_id(s: Seq<StructureInfo>, id: EntityId) -> bool {
    exists|j: int| 0 <= j < s.len() && (#[trigger] s[j]).id == id
}

/// Every id the scan keeps comes from some scan entry.
pub proof fn lemma_kind_ids_members(s: Seq<StructureInfo>, k: StructureKind)
    ensures
        forall|i: int|
            0 <= i < spec_kind_ids(s, k).len() ==> spec_has_structure_id(
                s,
                #[trigger] spec_kind_ids(s, k)[i],
            ),
    decreases s.len(),
{
    if s.len() > 0 {
        lemma_kind_ids_members(s.drop_last(), k);
        let ids = spec_kind_ids(s, k);
        let rest = spec_kind_ids(s.drop_last(), k);
        assert forall|i: int| 0 <= i < ids.len() implies spec_has_structure_id(
            s,
            #[trigger] ids[i],
        ) by {
            if s.last().kind == k && i == 0 {
                assert(s[s.len() - 1].id == ids[0]);
            } else {
                let r = if s.last().kind == k {
                    rest[i - 1]
                } else {
                    rest[i]
                };
                assert(ids[i] == r);
                assert(spec_has_structure_id(s.drop_last(), r));
                let j = choose|j: int|
                    0 <= j < s.drop_last().len() && (#[trigger] s.drop_last()[j]).id == r;
                assert(s[j].id == r);
            }
        }
    }
}

/// With pairwise-distinct scan ids the kept ids are pairwise distinct.
pub proof fn lemma_kind_ids_distinct(s: Seq<StructureInfo>, k: StructureKind)
    requires
        forall|a: int, b: int| 0 <= a < b < s.len() ==> s[a].id != s[b].id,
    ensures
        forall|a: int, b: int|
            0 <= a < b < spec_kind_ids(s, k).len() ==> spec_kind_ids(s, k)[a] != spec_kind_ids(
                s,
                k,
            )[b],
    decreases s.len(),
{
    if s.len() > 0 {
        assert forall|a: int, b: int|
            0 <= a < b < s.drop_last().len() implies s.drop_last()[a].id != s.drop_last()[b].id by {
            assert(s[a].id != s[b].id);
        }
        lemma_kind_ids_distinct(s.drop_last(), k);
        lemma_kind_ids_members(s.drop_last(), k);
        let ids = spec_kind_ids(s, k);
        let rest = spec_kind_ids(s.drop_last(), k);
        assert forall|a: int, b: int| 0 <= a < b < ids.len() implies ids[a] != ids[b] by {
            if s.last().kind == k {
                if a == 0 {
                    assert(ids[0] == s.last().id);
                    assert(ids[b] == rest[b - 1]);
                    assert(spec_has_structure_id(s.drop_last(), rest[b - 1]));
                    let j = choose|j: int|
                        0 <= j < s.drop_last().len() && (#[trigger] s.drop_last()[j]).id == rest[b
                            - 1];
                    assert(s[j].id == rest[b - 1]);
                    assert(s[j].id != s[s.len() - 1].id);
                } else {
                    assert(ids[a] == rest[a - 1]);
                    assert(ids[b] == rest[b - 1]);
                }
            } else {
                assert(ids[a] == rest[a]);
                assert(ids[b] == rest[b]);
            }
        }
    }
}

impl SpawnRoom {
    /// Stored facility ids are pairwise distinct: each facility belongs
    /// to the pool once, the ground of the exactly-once allocation.
    pub open spec fn wf(self) -> bool {
        forall|a: int, b: int|
            0 <= a < b < self.spawn_ids@.len() ==> self.spawn_ids@[a] != self.spawn_ids@[b]
    }

    /// Builds the pool from one room scan, keeping the spawn and extension
    /// ids (each prepended, so they end up in reverse scan order) and
    /// stamping an empty cache with the current tick.
    pub fn new(room_name: String, structures: &Vec<StructureInfo>, tick: u32) -> (r: Self)
        requires
            forall|a: int, b: int|
                0 <= a < b < structures@.len() ==> structures@[a].id != structures@[b].id,
        ensures
            r.room_name == room_name,
            r.spawn_ids@ == spec_kind_ids(structures@, StructureKind::SpawnKind),
            r.extension_ids@ == spec_kind_ids(structures@, StructureKind::ExtensionKind),
            r.available_spawn_cache.tick == tick,
            r.available_spawn_cache.stack is None,
            r.wf(),
    {
        proof {
            lemma_kind_ids_distinct(structures@, StructureKind::SpawnKind);
        }
        let mut spawns: Vec<EntityId> = Vec::new();
        let mut extensions: Vec<EntityId> = Vec::new();
        let n = structures.len();
        let mut i: usize = 0;
        while i < n
            invariant
                n == structures@.len(),
                0 <= i <= n,
                spawns@ == spec_kind_ids(structures@.take(i as int), StructureKind::SpawnKind),
                extensions@ == spec_kind_ids(
                    structures@.take(i as int),
                    StructureKind::ExtensionKind,
                ),
            decreases n - i,
        {
            proof {
                assert(structures@.take(i as int + 1).drop_last() =~= structures@.take(i as int));
                assert(structures@.take(i as int + 1).last() == structures@[i as int]);
            }
            match structures[i].kind {
                StructureKind::SpawnKind => {
                    spawns.insert(0, structures[i].id);
                    proof {
                        assert(spawns@ =~= seq![structures@[i as int].id] + spec_kind_ids(
                            structures@.take(i as int),
                            StructureKind::SpawnKind,
                        ));
                    }
                },
                StructureKind::ExtensionKind => {
                    extensions.insert(0, structures[i].id);
                    proof {
                        assert(extensions@ =~= seq![structures@[i as int].id] + spec_kind_ids(
                            structures@.take(i as int),
                            StructureKind::ExtensionKind,
                        ));
                    }
                },
                StructureKind::OtherKind => {},
            }
            i = i + 1;
        }
        proof {
            assert(structures@.take(n as int) =~= structures@);
        }
        Self {
            room_name,
            spawn_ids: spawns,
            extension_ids: extensions,
            available_spawn_cache: SpawnCache { tick, stack: None },
        }
    }

    /// The stored production-facility ids, in storage order.
    pub fn get_spawns(&self) -> (r: Vec<EntityId>)
        ensures
            r@ == self.spawn_ids@,
    {
        copy_ids(&self.spawn_ids)
    }

    /// The stored extension ids, in storage order.
    pub fn get_extensions(&self) -> (r: Vec<EntityId>)
        ensures
            r@ == self.extension_ids@,
    {
        copy_ids(&self.extension_ids)
    }

    /// Resource on hand in this pool's room right now, or 0 when the room
    /// is not in the snapshot.
    pub fn available_energy(&self, world: &World) -> (r: u32)
        requires
            world.wf(),
        ensures
            r == if world.spec_has_room(self.room_name@) {
                world.spec_room(self.room_name@).energy_available
            } else {
                0u32
            },
    {
        match world.room(&self.room_name) {
            Some(ri) => ri.energy_available,
            None => 0,
        }
    }

    /// Full production capacity of this pool's room, or 0 when the room is
    /// not in the snapshot.
    pub fn max_energy(&self, world: &World) -> (r: u32)
        requires
            world.wf(),
        ensures
            r == if world.spec_has_room(self.room_name@) {
                world.spec_room(self.room_name@).energy_capacity
            } else {
                0u32
            },
    {
        match world.room(&self.room_name) {
            Some(ri) => ri.energy_capacity,
            None => 0,
        }
    }

    /// Pops one idle facility off the tick-scoped availability cache.
    ///
    /// A stale stamp (any other tick) discards the cache; an absent stack
    /// is recomputed from the world — the stored ids that are currently
    /// idle — and stamped with the current tick. The pop consumes the
    /// stack's back entry, so repeated requests within one tick hand out
    /// each idle facility at most once, and return nothing once the stack
    /// is exhausted.
    pub fn available_spawn(&mut self, world: &World) -> (r: Option<EntityId>)
        requires
            world.wf(),
        ensures
            final(self).room_name == old(self).room_name,
            final(self).spawn_ids == old(self).spawn_ids,
            final(self).extension_ids == old(self).extension_ids,
            final(self).available_spawn_cache.tick == world.tick,
            ({
                let s0 = spec_cache_stack(
                    old(self).available_spawn_cache,
                    old(self).spawn_ids@,
                    *world,
                );
                &&& r == (if s0.len() == 0 {
                    Option::<EntityId>::None
                } else {
                    Option::<EntityId>::Some(s0.last())
                })
                &&& final(self).available_spawn_cache.stack matches Some(v) && v@ == (
                if s0.len() == 0 {
                    s0
                } else {
                    s0.drop_last()
                })
            }),
    {
        if self.available_spawn_cache.tick != world.tick {
            self.available_spawn_cache = SpawnCache { tick: world.tick, stack: None };
        }
        if self.available_spawn_cache.stack.is_none() {
            let n = self.spawn_ids.len();
            let mut stack: Vec<EntityId> = Vec::new();
            let mut i: usize = 0;
            while i < n
                invariant
                    n == self.spawn_ids@.len(),
                    0 <= i <= n,
                    world.wf(),
                    stack@ == spec_idle_stack(self.spawn_ids@.take(i as int), *world),
                decreases n - i,
            {
                proof {
                    assert(self.spawn_ids@.take(i as int + 1).drop_last() =~= self.spawn_ids@.take(
                        i as int,
                    ));
                    assert(self.spawn_ids@.take(i as int + 1).last() == self.spawn_ids@[i as int]);
                }
                match world.facility(self.spawn_ids[i]) {
                    Some(f) => {
                        if !f.busy {
                            stack.push(self.spawn_ids[i]);
                        }
                    },
                    None => {},
                }
                i = i + 1;
            }
            proof {
                assert(self.spawn_ids@.take(n as int) =~= self.spawn_ids@);
            }
            self.available_spawn_cache.stack = Some(stack);
        }
        match &mut self.available_spawn_cache.stack {
            Some(s) => s.pop(),
            None => vstd::pervasive::unreached(),
        }
    }

    /// Prepends a newly built facility's id to the pool. The id must be
    /// new to the pool: registering a facility twice would let one tick
    /// allocate it twice.
    pub fn add_spawn(&mut self, spawn_id: EntityId)
        requires
            !old(self).spawn_ids@.contains(spawn_id),
        ensures
            old(self).wf() ==> final(self).wf(),
            final(self).spawn_ids@ == seq![spawn_id] + old(self).spawn_ids@,
            final(self).room_name == old(self).room_name,
            final(self).extension_ids == old(self).extension_ids,
            final(self).available_spawn_cache == old(self).available_spawn_cache,
    {
        self.spawn_ids.insert(0, spawn_id);
        proof {
            assert(self.spawn_ids@ =~= seq![spawn_id] + old(self).spawn_ids@);
        }
    }
}

fn copy_ids(ids: &Vec<EntityId>) -> (r: Vec<EntityId>)
    ensures
        r@ == ids@,
{
    let n = ids.len();
    let mut out: Vec<EntityId> = Vec::new();
    let mut i: usize = 0;
    while i < n
        invariant
            n == ids@.len(),
            0 <= i <= n,
            out@ == ids@.take(i as int),
        decreases n - i,
    {
        out.push(ids[i]);
        proof {
            assert(out@ =~= ids@.take(i as int + 1));
        }
        i = i + 1;
    }
    proof {
        assert(ids@.take(n as int) =~= ids@);
    }
    out
}

/// Every id the availability stack hands out is a stored id that is idle
/// in the world: the pool never allocates a busy or foreign facility.
pub proof fn lemma_idle_stack_members(ids: Seq<EntityId>, world: World)
    ensures
        forall|k: int|
            0 <= k < spec_idle_stack(ids, world).len() ==> {
                let id = #[trigger] spec_idle_stack(ids, world)[k];
                &&& ids.contains(id)
                &&& world.spec_has_facility(id)
                &&& !world.spec_facility(id).busy
            },
    decreases ids.len(),
{
    if ids.len() > 0 {
        lemma_idle_stack_members(ids.drop_last(), world);
        assert forall|k: int| 0 <= k < spec_idle_stack(ids, world).len() implies {
            let id = #[trigger] spec_idle_stack(ids, world)[k];
            &&& ids.contains(id)
            &&& world.spec_has_facility(id)
            &&& !world.spec_facility(id).busy
        } by {
            let rest = spec_idle_stack(ids.drop_last(), world);
            if k < rest.len() {
                assert(ids.drop_last().contains(rest[k]));
                let j = choose|j: int| 0 <= j < ids.drop_last().len() && ids.drop_last()[j] == rest[k];
                assert(ids[j] == rest[k]);
            } else {
                assert(ids[ids.len() - 1] == ids.last());
            }
        }
    }
}

/// Allocation is exactly-once within a tick: a pop hands out the stack's
/// back entry, and that entry is absent from what remains, so no later
/// request against the same tick's cache can receive it again.
pub proof fn lemma_allocation_exactly_once(s0: Seq<EntityId>)
    requires
        forall|a: int, b: int| 0 <= a < b < s0.len() ==> s0[a] != s0[b],
        s0.len() > 0,
    ensures
        forall|k: int| 0 <= k < s0.drop_last().len() ==> s0.drop_last()[k] != s0.last(),
{
}

/// With pairwise-distinct stored ids the availability stack is itself
/// pairwise distinct, so the per-tick pops hand out k idle facilities as
/// k distinct facilities, exactly once each.
pub proof fn lemma_idle_stack_distinct(ids: Seq<EntityId>, world: World)
    requires
        forall|a: int, b: int| 0 <= a < b < ids.len() ==> ids[a] != ids[b],
    ensures
        forall|a: int, b: int|
            0 <= a < b < spec_idle_stack(ids, world).len() ==> spec_idle_stack(ids, world)[a]
                != spec_idle_stack(ids, world)[b],
    decreases ids.len(),
{
    if ids.len() > 0 {
        lemma_idle_stack_distinct(ids.drop_last(), world);
        lemma_idle_stack_members(ids.drop_last(), world);
        let s = spec_idle_stack(ids, world);
        let rest = spec_idle_stack(ids.drop_last(), world);
        assert forall|a: int, b: int| 0 <= a < b < s.len() implies s[a] != s[b] by {
            if b < rest.len() {
            } else if s.len() > rest.len() {
                assert(s[b] == ids.last());
                assert(ids.drop_last().contains(rest[a]));
                let j = choose|j: int|
                    0 <= j < ids.drop_last().len() && ids.drop_last()[j] == rest[a];
                assert(ids[j] == rest[a]);
                assert(ids[j] != ids[ids.len() - 1]);
            }
        }
    }
}

} // verus!
