//! Resource-allocation layer and colony aggregate: given a desired worker
//! name, a pool location, an urgency flag and a sizing policy, hands back
//! an existing live worker or decides that (and why) one is not available
//! this tick, triggering production when a facility is idle.
//!
//! Allocation is idempotent and re-entrant per tick: callers hold no lock
//! and simply ask again next tick; every failure is informational, never
//! fatal.

use vstd::prelude::*;

use crate::codes::Part;
use crate::codes::ReturnCode;
use crate::energy_distributer::EnergyDropOff;
use crate::energy_distributer::EnergyDropOffLoaded;
use crate::mine_room::MineRoom;
use crate::spawn_room::SpawnRoom;
use crate::spawn_room::StructureInfo;
use crate::spawn_room::spec_cache_stack;
use crate::spawn_room::spec_idle_stack;
use crate::spawn_room::spec_kind_ids;
use crate::spawn_room::StructureKind;
use crate::spawn_room::lemma_idle_stack_members;
use crate::tasks::Tasks;
use crate::world::EntityId;
use crate::world::NodeInfo;
use crate::world::World;

verus! {

/// Why a worker could not be handed out this tick. Every variant is
/// informational: the caller retries next tick.
#[derive(Clone, Copy, PartialEq, Eq, Structural, Debug)]
pub enum GetCreepError {
    /// The name is committed to a registered task and must not be
    /// repurposed.
    CreepBusy,
    /// No facility of the pool is idle this tick.
    NoSpawnAvailable,
    /// The worker is mid-production and not usable this tick.
    SpawningInProgress,
    /// The production order came back with an unexpected code.
    SpawningFailed(ReturnCode),
}

/// The sizing policy to apply when production is triggered.
#[derive(Clone, Copy, PartialEq, Eq, Structural, Debug)]
pub enum BodyPolicy {
    HarvesterPolicy,
    HaulerPolicy,
}

/// What the allocation layer decided: use the existing live worker, issue
/// this production order (the worker is then not usable this tick), or
/// the reason neither is possible.
pub enum CreepRequest {
    UseExisting,
    DoSpawn { facility: EntityId, body: Vec<Part> },
    Refused(GetCreepError),
}

/// The colony aggregate: one task registry, and per colony location one
/// extraction pipeline and one facility pool, keyed by room name.
pub struct Hive {
    pub tasks: Tasks,
    pub mine_rooms: Vec<(String, MineRoom)>,
    pub spawn_rooms: Vec<(String, SpawnRoom)>,
}

/// Two colony states whose pool keys and pool room names agree pointwise
/// name the same pool room, at the same list index, under a given key.
pub proof fn lemma_same_spawn_room_name(a: Hive, b: Hive, name: Seq<char>)
    requires
        a.wf(),
        b.wf(),
        a.spawn_rooms@.len() == b.spawn_rooms@.len(),
        forall|k: int|
            0 <= k < a.spawn_rooms@.len() ==> (#[trigger] a.spawn_rooms@[k]).0
                == b.spawn_rooms@[k].0 && a.spawn_rooms@[k].1.room_name
                == b.spawn_rooms@[k].1.room_name,
        a.spec_has_spawn_room(name),
    ensures
        b.spec_has_spawn_room(name),
        b.spec_spawn_room_idx(name) == a.spec_spawn_room_idx(name),
        b.spec_spawn_room(name).room_name == a.spec_spawn_room(name).room_name,
{
    let ia = a.spec_spawn_room_idx(name);
    assert(b.spawn_rooms@[ia].0@ == name);
    assert(b.spec_has_spawn_room(name));
    let ib = b.spec_spawn_room_idx(name);
    assert(a.spawn_rooms@[ib].0@ == name);
    assert(ia == ib);
}

/// Two colony states whose pool keys agree pointwise hold a pool under
/// the same keys: a key names a pool in one exactly when it does in the
/// other.
pub proof fn lemma_spawn_room_presence(a: Hive, b: Hive, name: Seq<char>)
    requires
        a.spawn_rooms@.len() == b.spawn_rooms@.len(),
        forall|k: int|
            0 <= k < a.spawn_rooms@.len() ==> (#[trigger] a.spawn_rooms@[k]).0
                == b.spawn_rooms@[k].0,
    ensures
        a.spec_has_spawn_room(name) == b.spec_has_spawn_room(name),
{
    if a.spec_has_spawn_room(name) {
        let i = choose|i: int| 0 <= i < a.spawn_rooms@.len() && a.spawn_rooms@[i].0@ == name;
        assert(b.spawn_rooms@[i].0@ == name);
    }
    if b.spec_has_spawn_room(name) {
        let i = choose|i: int| 0 <= i < b.spawn_rooms@.len() && b.spawn_rooms@[i].0@ == name;
        assert(a.spawn_rooms@[i].0@ == name);
    }
}

/// A worker name reaches the production draw: it is neither committed to
/// a registered task nor a live worker in the snapshot.
pub open spec fn spec_draw_reached(tasks: Tasks, world: World, name: Seq<char>) -> bool {
    &&& !tasks.spec_has_task(name)
    &&& !world.spec_has_worker(name)
}

/// One pop of a tick's availability stack; an exhausted stack stays
/// empty.
pub open spec fn spec_pop(s: Seq<EntityId>) -> Seq<EntityId> {
    if s.len() == 0 {
        s
    } else {
        s.drop_last()
    }
}

/// What a production draw against the given stack yields: the stack's
/// back facility with a policy-sized composition, or a refusal when the
/// stack is exhausted.
pub open spec fn spec_draw_ok(
    req: CreepRequest,
    policy: BodyPolicy,
    energy: u32,
    s: Seq<EntityId>,
) -> bool {
    if s.len() == 0 {
        req == CreepRequest::Refused(GetCreepError::NoSpawnAvailable)
    } else {
        req matches CreepRequest::DoSpawn { facility, body } && facility == s.last()
            && spec_body_ok(policy, energy, body@)
    }
}

/// The composition a sizing policy yields for the given resource amount.
pub open spec fn spec_body_ok(policy: BodyPolicy, energy: u32, b: Seq<Part>) -> bool {
    match policy {
        BodyPolicy::HarvesterPolicy => {
            &&& b.len() == 1 + (if (energy - 100) / 100 < 4 {
                (energy - 100) / 100 as int
            } else {
                4
            })
            &&& forall|k: int| 0 <= k < b.len() ==> b[k] == Part::Work
        },
        BodyPolicy::HaulerPolicy => b == seq![Part::Move, Part::Carry, Part::Move, Part::Carry],
    }
}

impl Hive {
    /// Registry keys and room keys are unique, and each pool's facility
    /// ids and each pipeline's node ids are pairwise distinct.
    pub open spec fn wf(self) -> bool {
        &&& self.tasks.wf()
        &&& forall|i: int, j: int|
            0 <= i < j < self.spawn_rooms@.len() ==> self.spawn_rooms@[i].0@
                != self.spawn_rooms@[j].0@
        &&& forall|i: int, j: int|
            0 <= i < j < self.mine_rooms@.len() ==> self.mine_rooms@[i].0@
                != self.mine_rooms@[j].0@
        &&& forall|i: int| 0 <= i < self.spawn_rooms@.len() ==> (#[trigger] self.spawn_rooms@[i]).1.wf()
        &&& forall|i: int| 0 <= i < self.mine_rooms@.len() ==> (#[trigger] self.mine_rooms@[i]).1.wf()
    }

    pub open spec fn spec_has_spawn_room(self, name: Seq<char>) -> bool {
        exists|i: int| 0 <= i < self.spawn_rooms@.len() && self.spawn_rooms@[i].0@ == name
    }

    pub open spec fn spec_spawn_room_idx(self, name: Seq<char>) -> int {
        choose|i: int| 0 <= i < self.spawn_rooms@.len() && self.spawn_rooms@[i].0@ == name
    }

    pub open spec fn spec_spawn_room(self, name: Seq<char>) -> SpawnRoom {
        self.spawn_rooms@[self.spec_spawn_room_idx(name)].1
    }

    /// The resource amount a production order may spend: what is on hand
    /// when urgent, the location's full capacity otherwise; 0 when the
    /// pool's room is not in the snapshot.
    pub open spec fn spec_spawn_energy(self, name: Seq<char>, urgent: bool, world: World) -> u32 {
        let room_name = self.spec_spawn_room(name).room_name@;
        if world.spec_has_room(room_name) {
            if urgent {
                world.spec_room(room_name).energy_available
            } else {
                world.spec_room(room_name).energy_capacity
            }
        } else {
            0u32
        }
    }

    /// The availability stack an allocation request against the named
    /// pool would draw from this tick; empty when no such pool exists.
    pub open spec fn spec_pool_stack(self, name: Seq<char>, world: World) -> Seq<EntityId> {
        if self.spec_has_spawn_room(name) {
            spec_cache_stack(
                self.spec_spawn_room(name).available_spawn_cache,
                self.spec_spawn_room(name).spawn_ids@,
                world,
            )
        } else {
            Seq::empty()
        }
    }

    /// The allocation would reach production: the name is not busy, no
    /// live worker has it, the pool exists and a facility is idle.
    pub open spec fn spec_will_spawn(
        self,
        creep_name: Seq<char>,
        spawn_room_name: Seq<char>,
        world: World,
    ) -> bool {
        &&& !self.tasks.spec_has_task(creep_name)
        &&& !world.spec_has_worker(creep_name)
        &&& self.spec_has_spawn_room(spawn_room_name)
        &&& spec_cache_stack(
            self.spec_spawn_room(spawn_room_name).available_spawn_cache,
            self.spec_spawn_room(spawn_room_name).spawn_ids@,
            world,
        ).len() > 0
    }

    /// The allocation decision for one desired worker, in order: a name
    /// committed to a task is busy; an existing live worker is handed out
    /// (or is still mid-production); otherwise an idle facility is drawn
    /// from the pool's per-tick cache and a production order is prepared,
    /// sized by the policy from the available resource.
    pub fn get_creep(
        &mut self,
        creep_name: &String,
        spawn_room_name: &String,
        urgent: bool,
        policy: BodyPolicy,
        world: &World,
    ) -> (r: CreepRequest)
        requires
            world.wf(),
            old(self).wf(),
            policy == BodyPolicy::HarvesterPolicy && old(self).spec_will_spawn(
                creep_name@,
                spawn_room_name@,
                *world,
            ) ==> old(self).spec_spawn_energy(spawn_room_name@, urgent, *world) >= 100,
        ensures
            final(self).tasks == old(self).tasks,
            final(self).mine_rooms == old(self).mine_rooms,
            final(self).spawn_rooms@.len() == old(self).spawn_rooms@.len(),
            forall|k: int|
                0 <= k < old(self).spawn_rooms@.len() ==> (#[trigger] final(self).spawn_rooms@[k]).0
                    == old(self).spawn_rooms@[k].0 && final(self).spawn_rooms@[k].1.room_name == old(
                    self,
                ).spawn_rooms@[k].1.room_name && final(self).spawn_rooms@[k].1.spawn_ids == old(
                    self,
                ).spawn_rooms@[k].1.spawn_ids && final(self).spawn_rooms@[k].1.extension_ids == old(
                    self,
                ).spawn_rooms@[k].1.extension_ids,
            old(self).tasks.spec_has_task(creep_name@) ==> r == CreepRequest::Refused(
                GetCreepError::CreepBusy,
            ) && *final(self) == *old(self),
            !old(self).tasks.spec_has_task(creep_name@) && world.spec_has_worker(creep_name@)
                ==> *final(self) == *old(self) && r == (if !world.spec_worker(
                creep_name@,
            ).spawning {
                CreepRequest::UseExisting
            } else {
                CreepRequest::Refused(GetCreepError::SpawningInProgress)
            }),
            !old(self).tasks.spec_has_task(creep_name@) && !world.spec_has_worker(creep_name@)
                && !old(self).spec_has_spawn_room(spawn_room_name@) ==> r == CreepRequest::Refused(
                GetCreepError::NoSpawnAvailable,
            ) && *final(self) == *old(self),
            !old(self).tasks.spec_has_task(creep_name@) && !world.spec_has_worker(creep_name@)
                && old(self).spec_has_spawn_room(spawn_room_name@) ==> ({
                let idx = old(self).spec_spawn_room_idx(spawn_room_name@);
                let sr = old(self).spec_spawn_room(spawn_room_name@);
                let s0 = spec_cache_stack(sr.available_spawn_cache, sr.spawn_ids@, *world);
                let sr2 = final(self).spawn_rooms@[idx].1;
                &&& forall|k: int|
                    0 <= k < old(self).spawn_rooms@.len() && k != idx
                        ==> #[trigger] final(self).spawn_rooms@[k] == old(self).spawn_rooms@[k]
                &&& sr2.available_spawn_cache.tick == world.tick
                &&& sr2.available_spawn_cache.stack matches Some(v) && v@ == (if s0.len() == 0 {
                    s0
                } else {
                    s0.drop_last()
                })
                &&& if s0.len() == 0 {
                    r == CreepRequest::Refused(GetCreepError::NoSpawnAvailable)
                } else {
                    r matches CreepRequest::DoSpawn { facility, body } && facility == s0.last()
                        && spec_body_ok(
                        policy,
                        old(self).spec_spawn_energy(spawn_room_name@, urgent, *world),
                        body@,
                    )
                }
            }),
    {
        if self.tasks.has_task(creep_name.as_str()) {
            return CreepRequest::Refused(GetCreepError::CreepBusy);
        }
        match world.worker(creep_name) {
            Some(w) => {
                if !w.spawning {
                    return CreepRequest::UseExisting;
                } else {
                    return CreepRequest::Refused(GetCreepError::SpawningInProgress);
                }
            },
            None => {},
        }
        let n = self.spawn_rooms.len();
        let mut i: usize = 0;
        while i < n
            invariant
                *self == *old(self),
                world.wf(),
                old(self).wf(),
                n == self.spawn_rooms@.len(),
                0 <= i <= n,
                forall|k: int| 0 <= k < i ==> self.spawn_rooms@[k].0@ != spawn_room_name@,
                !old(self).tasks.spec_has_task(creep_name@),
                !world.spec_has_worker(creep_name@),
                policy == BodyPolicy::HarvesterPolicy && old(self).spec_will_spawn(
                    creep_name@,
                    spawn_room_name@,
                    *world,
                ) ==> old(self).spec_spawn_energy(spawn_room_name@, urgent, *world) >= 100,
            decreases n - i,
        {
            if self.spawn_rooms[i].0.eq(spawn_room_name) {
                proof {
                    assert(old(self).spawn_rooms@[i as int].0@ == spawn_room_name@);
                    assert(old(self).spec_has_spawn_room(spawn_room_name@));
                    let j = old(self).spec_spawn_room_idx(spawn_room_name@);
                    assert(0 <= j < old(self).spawn_rooms@.len() && old(self).spawn_rooms@[j].0@
                        == spawn_room_name@);
                    assert(j == i as int);
                }
                let sr = &mut self.spawn_rooms[i].1;
                let popped = sr.available_spawn(world);
                match popped {
                    None => {
                        return CreepRequest::Refused(GetCreepError::NoSpawnAvailable);
                    },
                    Some(facility) => {
                        proof {
                            assert(old(self).spec_will_spawn(
                                creep_name@,
                                spawn_room_name@,
                                *world,
                            ));
                        }
                        let energy = if urgent {
                            self.spawn_rooms[i].1.available_energy(world)
                        } else {
                            self.spawn_rooms[i].1.max_energy(world)
                        };
                        let body = match policy {
                            BodyPolicy::HarvesterPolicy => MineRoom::get_harvester_body(energy),
                            BodyPolicy::HaulerPolicy => MineRoom::get_hauler_body(energy),
                        };
                        return CreepRequest::DoSpawn { facility, body };
                    },
                }
            }
            i = i + 1;
        }
        CreepRequest::Refused(GetCreepError::NoSpawnAvailable)
    }

    /// The tick's verdict on an issued production order: `Okay` means the
    /// worker is being produced (not usable this tick); any other code is
    /// the production failure, reported as-is.
    pub fn spawn_result(code: ReturnCode) -> (r: GetCreepError)
        ensures
            code == ReturnCode::Okay ==> r == GetCreepError::SpawningInProgress,
            code != ReturnCode::Okay ==> r == GetCreepError::SpawningFailed(code),
    {
        if code == ReturnCode::Okay {
            GetCreepError::SpawningInProgress
        } else {
            GetCreepError::SpawningFailed(code)
        }
    }

    /// Founds the colony at one location: scans the location's structures
    /// into a pool, takes one idle facility as the initial drop-off (this
    /// consumes it from the tick's availability cache), and builds the
    /// extraction pipeline over the location's nodes.
    pub fn new(
        room_name: String,
        structures: &Vec<StructureInfo>,
        sources: &Vec<NodeInfo>,
        world: &World,
    ) -> (r: Self)
        requires
            world.wf(),
            spec_idle_stack(
                spec_kind_ids(structures@, StructureKind::SpawnKind),
                *world,
            ).len() > 0,
            forall|a: int, b: int|
                0 <= a < b < structures@.len() ==> structures@[a].id != structures@[b].id,
            forall|a: int, b: int|
                0 <= a < b < sources@.len() ==> sources@[a].id != sources@[b].id,
        ensures
            r.wf(),
            r.tasks.task_list@.len() == 0,
            r.spawn_rooms@.len() == 1,
            r.spawn_rooms@[0].0 == room_name,
            r.spawn_rooms@[0].1.room_name == room_name,
            r.spawn_rooms@[0].1.spawn_ids@ == spec_kind_ids(structures@, StructureKind::SpawnKind),
            ({
                let idle = spec_idle_stack(
                    spec_kind_ids(structures@, StructureKind::SpawnKind),
                    *world,
                );
                &&& r.spawn_rooms@[0].1.available_spawn_cache.tick == world.tick
                &&& r.spawn_rooms@[0].1.available_spawn_cache.stack matches Some(v) && v@
                    == idle.drop_last()
                &&& r.mine_rooms@.len() == 1
                &&& r.mine_rooms@[0].0 == room_name
                &&& r.mine_rooms@[0].1.room_name == room_name
                &&& r.mine_rooms@[0].1.spawn_room_name == room_name
                &&& r.mine_rooms@[0].1.energy_drop_off == EnergyDropOff::Spawn(idle.last())
                &&& r.mine_rooms@[0].1.source_ids@.len() == sources@.len()
                &&& forall|j: int|
                    0 <= j < sources@.len() ==> r.mine_rooms@[0].1.source_ids@.contains(
                        (#[trigger] sources@[j]).id,
                    )
                &&& forall|a: int, b: int|
                    0 <= a < b < r.mine_rooms@[0].1.source_ids@.len()
                        ==> r.mine_rooms@[0].1.source_ids@[a] != r.mine_rooms@[0].1.source_ids@[b]
                &&& forall|a: int, b: int|
                    0 <= a < b < r.mine_rooms@[0].1.source_ids@.len()
                        ==> crate::world::spec_range(
                        crate::mine_room::spec_source_pos(
                            sources@,
                            r.mine_rooms@[0].1.source_ids@[a],
                        ),
                        world.spec_facility(idle.last()).pos,
                    ) <= crate::world::spec_range(
                        crate::mine_room::spec_source_pos(
                            sources@,
                            r.mine_rooms@[0].1.source_ids@[b],
                        ),
                        world.spec_facility(idle.last()).pos,
                    )
            }),
    {
        let mut initial_spawn_group = SpawnRoom::new(room_name.clone(), structures, world.tick);
        let popped = initial_spawn_group.available_spawn(world);
        let spawn_id = match popped {
            Some(id) => id,
            None => vstd::pervasive::unreached(),
        };
        proof {
            lemma_idle_stack_members(
                spec_kind_ids(structures@, StructureKind::SpawnKind),
                *world,
            );
        }
        let fac = match world.facility(spawn_id) {
            Some(f) => f,
            None => vstd::pervasive::unreached(),
        };
        let energy_drop_off = EnergyDropOffLoaded::Spawn(spawn_id, fac.pos);
        let initial_mine_group = MineRoom::new(
            room_name.clone(),
            room_name.clone(),
            energy_drop_off,
            sources,
        );
        let mut spawn_rooms: Vec<(String, SpawnRoom)> = Vec::new();
        spawn_rooms.push((room_name.clone(), initial_spawn_group));
        let mut mine_rooms: Vec<(String, MineRoom)> = Vec::new();
        mine_rooms.push((room_name, initial_mine_group));
        Self { tasks: Tasks::new(), mine_rooms, spawn_rooms }
    }
    /// Drives every extraction pipeline for one tick, in stored room
    /// order, and hands back each room's planned node work for the caller
    /// to execute. By the colony's fixed ordering contract the caller
    /// executes this work — production orders and plans — before it
    /// gathers events and sweeps the task registry, so a worker freshly
    /// committed by a pipeline is not also driven by a stale task entry.
    /// Each room's entries satisfy the per-node consistency of
    /// `MineRoom::run` against some pool stack (the exact stack threading
    /// is stated there, per room).
    #[verifier::rlimit(50)]
    pub fn run(
        &mut self,
        world: &World,
        names: &Vec<Vec<(String, String)>>,
    ) -> (r: Vec<RoomWork>)
        requires
            world.wf(),
            old(self).wf(),
            names@.len() == old(self).mine_rooms@.len(),
            forall|m: int|
                0 <= m < old(self).mine_rooms@.len() ==> (#[trigger] names@[m])@.len() == old(
                    self,
                ).mine_rooms@[m].1.source_ids@.len(),
            forall|m: int|
                0 <= m < old(self).mine_rooms@.len() && old(self).spec_has_spawn_room(
                    (#[trigger] old(self).mine_rooms@[m]).1.spawn_room_name@,
                ) ==> old(self).spec_spawn_energy(
                    old(self).mine_rooms@[m].1.spawn_room_name@,
                    false,
                    *world,
                ) >= 100,
        ensures
            final(self).wf(),
            final(self).tasks == old(self).tasks,
            final(self).mine_rooms == old(self).mine_rooms,
            r@.len() == old(self).mine_rooms@.len(),
            forall|m: int|
                0 <= m < r@.len() ==> (#[trigger] r@[m]).room_name == old(self).mine_rooms@[m].0
                    && r@[m].nodes@.len() == old(self).mine_rooms@[m].1.source_ids@.len(),
            forall|m: int|
                #![trigger r@[m]]
                0 <= m < r@.len() ==> crate::mine_room::spec_room_work_some(
                    old(self).mine_rooms@[m].1,
                    r@[m].nodes@,
                    names@[m]@,
                    old(self).tasks,
                    *world,
                    old(self).spec_has_spawn_room(old(self).mine_rooms@[m].1.spawn_room_name@),
                    old(self).spec_spawn_energy(
                        old(self).mine_rooms@[m].1.spawn_room_name@,
                        false,
                        *world,
                    ),
                ),
    {
        let mut rooms: Vec<(String, MineRoom)> = Vec::new();
        core::mem::swap(&mut rooms, &mut self.mine_rooms);
        let n = rooms.len();
        let mut out: Vec<RoomWork> = Vec::new();
        let ghost mut stacks: Seq<Seq<EntityId>> = Seq::empty();
        let mut m: usize = 0;
        while m < n
            invariant
                world.wf(),
                self.wf(),
                old(self).wf(),
                n == rooms@.len(),
                rooms == old(self).mine_rooms,
                names@.len() == n,
                0 <= m <= n,
                out@.len() == m,
                self.tasks == old(self).tasks,
                self.mine_rooms@.len() == 0,
                self.spawn_rooms@.len() == old(self).spawn_rooms@.len(),
                forall|k: int|
                    0 <= k < old(self).spawn_rooms@.len() ==> (#[trigger] self.spawn_rooms@[k]).0
                        == old(self).spawn_rooms@[k].0 && self.spawn_rooms@[k].1.room_name == old(
                        self,
                    ).spawn_rooms@[k].1.room_name,
                forall|j: int|
                    0 <= j < n ==> (#[trigger] names@[j])@.len() == old(
                        self,
                    ).mine_rooms@[j].1.source_ids@.len(),
                forall|j: int|
                    0 <= j < n && old(self).spec_has_spawn_room(
                        (#[trigger] old(self).mine_rooms@[j]).1.spawn_room_name@,
                    ) ==> old(self).spec_spawn_energy(
                        old(self).mine_rooms@[j].1.spawn_room_name@,
                        false,
                        *world,
                    ) >= 100,
                forall|j: int|
                    0 <= j < m ==> (#[trigger] out@[j]).room_name == old(self).mine_rooms@[j].0
                        && out@[j].nodes@.len() == old(self).mine_rooms@[j].1.source_ids@.len(),
                stacks.len() == m,
                forall|j: int|
                    0 <= j < m ==> crate::mine_room::spec_room_work_ok(
                        old(self).mine_rooms@[j].1,
                        (#[trigger] out@[j]).nodes@,
                        names@[j]@,
                        old(self).tasks,
                        *world,
                        old(self).spec_has_spawn_room(
                            old(self).mine_rooms@[j].1.spawn_room_name@,
                        ),
                        old(self).spec_spawn_energy(
                            old(self).mine_rooms@[j].1.spawn_room_name@,
                            false,
                            *world,
                        ),
                        stacks[j],
                    ),
            decreases n - m,
        {
            let ghost room = old(self).mine_rooms@[m as int].1;
            let ghost pool_name = room.spawn_room_name@;
            let ghost has_pool = old(self).spec_has_spawn_room(pool_name);
            let ghost energy = old(self).spec_spawn_energy(pool_name, false, *world);
            let ghost hb = *self;
            proof {
                assert(rooms@[m as int].1 == room);
                lemma_spawn_room_presence(*old(self), hb, pool_name);
                if has_pool {
                    lemma_same_spawn_room_name(*old(self), hb, pool_name);
                }
            }
            let nodes = rooms[m].1.run(self, world, &names[m]);
            let ghost nv = nodes@;
            let ghost out_pre = out@;
            let room_name = rooms[m].0.clone();
            out.push(RoomWork { room_name, nodes });
            proof {
                assert(out@[m as int].nodes@ == nv);
                let sw = hb.spec_pool_stack(pool_name, *world);
                assert(crate::mine_room::spec_room_work_ok(
                    room,
                    nv,
                    names@[m as int]@,
                    hb.tasks,
                    *world,
                    hb.spec_has_spawn_room(pool_name),
                    hb.spec_spawn_energy(pool_name, false, *world),
                    sw,
                ));
                assert(hb.tasks == old(self).tasks);
                assert(hb.spec_has_spawn_room(pool_name) == has_pool);
                if has_pool {
                    assert(hb.spec_spawn_energy(pool_name, false, *world) == energy);
                } else {
                    crate::mine_room::lemma_room_work_energy_irrelevant(
                        room,
                        nv,
                        names@[m as int]@,
                        old(self).tasks,
                        *world,
                        hb.spec_spawn_energy(pool_name, false, *world),
                        energy,
                        sw,
                    );
                }
                stacks = stacks.push(sw);
                assert forall|j: int| 0 <= j < m as int + 1 implies
                    crate::mine_room::spec_room_work_ok(
                        old(self).mine_rooms@[j].1,
                        (#[trigger] out@[j]).nodes@,
                        names@[j]@,
                        old(self).tasks,
                        *world,
                        old(self).spec_has_spawn_room(old(self).mine_rooms@[j].1.spawn_room_name@),
                        old(self).spec_spawn_energy(
                            old(self).mine_rooms@[j].1.spawn_room_name@,
                            false,
                            *world,
                        ),
                        stacks[j],
                    ) by {
                    if j < m as int {
                        assert(out@[j] == out_pre[j]);
                        assert(stacks[j] == stacks.drop_last()[j]);
                    } else {
                        assert(stacks[j] == sw);
                        assert(out@[j].nodes@ == nv);
                    }
                }
            }
            m = m + 1;
        }
        core::mem::swap(&mut rooms, &mut self.mine_rooms);
        proof {
            assert forall|m2: int| #![trigger out@[m2]] 0 <= m2 < out@.len() implies
                crate::mine_room::spec_room_work_some(
                    old(self).mine_rooms@[m2].1,
                    out@[m2].nodes@,
                    names@[m2]@,
                    old(self).tasks,
                    *world,
                    old(self).spec_has_spawn_room(old(self).mine_rooms@[m2].1.spawn_room_name@),
                    old(self).spec_spawn_energy(
                        old(self).mine_rooms@[m2].1.spawn_room_name@,
                        false,
                        *world,
                    ),
                ) by {
                assert(crate::mine_room::spec_room_work_ok(
                    old(self).mine_rooms@[m2].1,
                    out@[m2].nodes@,
                    names@[m2]@,
                    old(self).tasks,
                    *world,
                    old(self).spec_has_spawn_room(old(self).mine_rooms@[m2].1.spawn_room_name@),
                    old(self).spec_spawn_energy(
                        old(self).mine_rooms@[m2].1.spawn_room_name@,
                        false,
                        *world,
                    ),
                    stacks[m2],
                ));
            }
        }
        out
    }
}

/// One room's planned work for the tick, in the room's stored node order.
pub struct RoomWork {
    pub room_name: String,
    pub nodes: Vec<crate::mine_room::NodeWork>,
}

} // verus!
