//! The persisted colony state: a versioned wrapper around the colony
//! aggregate. The host's storage, serialization, and the per-tick
//! load/run/save cycle are the caller's job; the library decides whether
//! a loaded state is acceptable (its version must match exactly) and
//! drives one tick of the colony.

use vstd::prelude::*;

use crate::hive::Hive;
use crate::hive::RoomWork;
use crate::spawn_room::StructureInfo;
use crate::spawn_room::StructureKind;
use crate::spawn_room::spec_idle_stack;
use crate::spawn_room::spec_kind_ids;
use crate::world::NodeInfo;
use crate::world::World;

verus! {

/// The persisted colony state.
pub struct Memory {
    pub version: (u8, u8, u8, u8),
    pub hive: Hive,
}

/// The version this library writes and accepts.
pub fn mem_version() -> (v: (u8, u8, u8, u8))
    ensures
        v == (0u8, 0u8, 0u8, 0u8),
{
    (0, 0, 0, 0)
}

impl Memory {
    /// A fresh colony state, founded from the current world snapshot.
    pub fn new(
        room_name: String,
        structures: &Vec<StructureInfo>,
        sources: &Vec<NodeInfo>,
        world: &World,
    ) -> (r: Self)
        requires
            world.wf(),
            spec_idle_stack(
                spec_kind_ids(structures@, StructureKind::SpawnKind),
                *world,
            ).len() > 0,
            forall|a: int, b: int|
                0 <= a < b < structures@.len() ==> structures@[a].id != structures@[b].id,
            forall|a: int, b: int|
                0 <= a < b < sources@.len() ==> sources@[a].id != sources@[b].id,
        ensures
            r.version == (0u8, 0u8, 0u8, 0u8),
            r.hive.wf(),
            r.hive.tasks.task_list@.len() == 0,
            r.hive.spawn_rooms@.len() == 1,
            r.hive.spawn_rooms@[0].0 == room_name,
            r.hive.spawn_rooms@[0].1.room_name == room_name,
            r.hive.spawn_rooms@[0].1.spawn_ids@ == spec_kind_ids(
                structures@,
                StructureKind::SpawnKind,
            ),
            ({
                let idle = spec_idle_stack(
                    spec_kind_ids(structures@, StructureKind::SpawnKind),
                    *world,
                );
                &&& r.hive.spawn_rooms@[0].1.available_spawn_cache.tick == world.tick
                &&& r.hive.spawn_rooms@[0].1.available_spawn_cache.stack matches Some(v) && v@
                    == idle.drop_last()
                &&& r.hive.mine_rooms@.len() == 1
                &&& r.hive.mine_rooms@[0].0 == room_name
                &&& r.hive.mine_rooms@[0].1.room_name == room_name
                &&& r.hive.mine_rooms@[0].1.spawn_room_name == room_name
                &&& r.hive.mine_rooms@[0].1.energy_drop_off
                    == crate::energy_distributer::EnergyDropOff::Spawn(idle.last())
                &&& r.hive.mine_rooms@[0].1.source_ids@.len() == sources@.len()
                &&& forall|j: int|
                    0 <= j < sources@.len() ==> r.hive.mine_rooms@[0].1.source_ids@.contains(
                        (#[trigger] sources@[j]).id,
                    )
                &&& forall|a: int, b: int|
                    0 <= a < b < r.hive.mine_rooms@[0].1.source_ids@.len()
                        ==> r.hive.mine_rooms@[0].1.source_ids@[a]
                        != r.hive.mine_rooms@[0].1.source_ids@[b]
                &&& forall|a: int, b: int|
                    0 <= a < b < r.hive.mine_rooms@[0].1.source_ids@.len()
                        ==> crate::world::spec_range(
                        crate::mine_room::spec_source_pos(
                            sources@,
                            r.hive.mine_rooms@[0].1.source_ids@[a],
                        ),
                        world.spec_facility(idle.last()).pos,
                    ) <= crate::world::spec_range(
                        crate::mine_room::spec_source_pos(
                            sources@,
                            r.hive.mine_rooms@[0].1.source_ids@[b],
                        ),
                        world.spec_facility(idle.last()).pos,
                    )
            }),
    {
        Memory { version: mem_version(), hive: Hive::new(room_name, structures, sources, world) }
    }

    /// One tick of the colony: plans all pipelines (see `Hive::run`); the
    /// caller then executes the plans and sweeps the task registry.
    pub fn run(
        &mut self,
        world: &World,
        names: &Vec<Vec<(String, String)>>,
    ) -> (r: Vec<RoomWork>)
        requires
            world.wf(),
            old(self).hive.wf(),
            names@.len() == old(self).hive.mine_rooms@.len(),
            forall|m: int|
                0 <= m < old(self).hive.mine_rooms@.len() ==> (#[trigger] names@[m])@.len() == old(
                    self,
                ).hive.mine_rooms@[m].1.source_ids@.len(),
            forall|m: int|
                0 <= m < old(self).hive.mine_rooms@.len() && old(self).hive.spec_has_spawn_room(
                    (#[trigger] old(self).hive.mine_rooms@[m]).1.spawn_room_name@,
                ) ==> old(self).hive.spec_spawn_energy(
                    old(self).hive.mine_rooms@[m].1.spawn_room_name@,
                    false,
                    *world,
                ) >= 100,
        ensures
            final(self).version == old(self).version,
            final(self).hive.wf(),
            final(self).hive.tasks == old(self).hive.tasks,
            final(self).hive.mine_rooms == old(self).hive.mine_rooms,
            r@.len() == old(self).hive.mine_rooms@.len(),
            forall|m: int|
                0 <= m < r@.len() ==> (#[trigger] r@[m]).room_name == old(self).hive.mine_rooms@[m].0
                    && r@[m].nodes@.len() == old(self).hive.mine_rooms@[m].1.source_ids@.len(),
            forall|m: int|
                #![trigger r@[m]]
                0 <= m < r@.len() ==> crate::mine_room::spec_room_work_some(
                    old(self).hive.mine_rooms@[m].1,
                    r@[m].nodes@,
                    names@[m]@,
                    old(self).hive.tasks,
                    *world,
                    old(self).hive.spec_has_spawn_room(
                        old(self).hive.mine_rooms@[m].1.spawn_room_name@,
                    ),
                    old(self).hive.spec_spawn_energy(
                        old(self).hive.mine_rooms@[m].1.spawn_room_name@,
                        false,
                        *world,
                    ),
                ),
    {
        self.hive.run(world, names)
    }
}

/// Accepts a loaded colony state exactly when its version matches the
/// version this library writes; anything else is discarded and the caller
/// founds a fresh colony from the current snapshot.
pub fn reconcile(parsed: Option<Memory>) -> (r: Option<Memory>)
    ensures
        parsed is None ==> r is None,
        parsed matches Some(m) ==> (if m.version == (0u8, 0u8, 0u8, 0u8) {
            r == Some(m)
        } else {
            r is None
        }),
{
    match parsed {
        Some(m) => {
            let v = mem_version();
            if m.version.0 == v.0 && m.version.1 == v.1 && m.version.2 == v.2 && m.version.3
                == v.3 {
                Some(m)
            } else {
                None
            }
        },
        None => None,
    }
}

} // verus!
