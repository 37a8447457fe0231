//! Destination resolver: the polymorphic drop-off target that accepts
//! delivered resource — either a production facility or another worker.
//! The persisted form holds only the stable reference (facility id or
//! worker name); it is resolved lazily each tick against the snapshot, and
//! resolution failure is a recoverable per-tick condition, never fatal.

use vstd::prelude::*;

use crate::codes::ReturnCode;
use crate::world::EntityId;
use crate::world::Pos;
use crate::world::World;

verus! {

/// Persisted form of a drop-off target.
pub enum EnergyDropOff {
    Spawn(EntityId),
    Creep(String),
}

/// Resolved form of a drop-off target for one tick: the stable reference
/// together with the position the snapshot reports for it.
pub enum EnergyDropOffLoaded {
    Spawn(EntityId, Pos),
    Creep(String, Pos),
}

/// What resolving a persisted drop-off against a snapshot yields: the
/// loaded form when the referenced entity is live, nothing otherwise.
pub open spec fn spec_preload(d: EnergyDropOff, world: World) -> Option<EnergyDropOffLoaded> {
    match d {
        EnergyDropOff::Spawn(id) => if world.spec_has_facility(id) {
            Some(EnergyDropOffLoaded::Spawn(id, world.spec_facility(id).pos))
        } else {
            None
        },
        EnergyDropOff::Creep(name) => if world.spec_has_worker(name@) {
            Some(EnergyDropOffLoaded::Creep(name, world.spec_worker(name@).pos))
        } else {
            None
        },
    }
}

/// The persisted form a loaded drop-off compresses back to.
pub open spec fn spec_compress(d: EnergyDropOffLoaded) -> EnergyDropOff {
    match d {
        EnergyDropOffLoaded::Spawn(id, _) => EnergyDropOff::Spawn(id),
        EnergyDropOffLoaded::Creep(name, _) => EnergyDropOff::Creep(name),
    }
}

/// The position of a loaded drop-off.
pub open spec fn spec_drop_off_pos(d: EnergyDropOffLoaded) -> Pos {
    match d {
        EnergyDropOffLoaded::Spawn(_, p) => p,
        EnergyDropOffLoaded::Creep(_, p) => p,
    }
}

/// Two loaded drop-offs reference the same underlying entity.
pub open spec fn spec_same_entity(a: EnergyDropOffLoaded, b: EnergyDropOffLoaded) -> bool {
    match a {
        EnergyDropOffLoaded::Spawn(ida, _) => b matches EnergyDropOffLoaded::Spawn(idb, _) && ida
            == idb,
        EnergyDropOffLoaded::Creep(na, _) => b matches EnergyDropOffLoaded::Creep(nb, _) && na@
            == nb@,
    }
}

impl EnergyDropOff {
    /// Resolves this persisted target against the tick's snapshot.
    pub fn preload(&self, world: &World) -> (r: Option<EnergyDropOffLoaded>)
        requires
            world.wf(),
        ensures
            r == spec_preload(*self, *world),
    {
        match self {
            EnergyDropOff::Spawn(id) => match world.facility(*id) {
                Some(f) => Some(EnergyDropOffLoaded::Spawn(*id, f.pos)),
                None => None,
            },
            EnergyDropOff::Creep(name) => match world.worker(name) {
                Some(w) => Some(EnergyDropOffLoaded::Creep(name.clone(), w.pos)),
                None => None,
            },
        }
    }
}

impl EnergyDropOffLoaded {
    /// Compresses this resolved target back to its persisted form.
    pub fn compress(&self) -> (r: EnergyDropOff)
        ensures
            r == spec_compress(*self),
    {
        match self {
            EnergyDropOffLoaded::Spawn(id, _) => EnergyDropOff::Spawn(*id),
            EnergyDropOffLoaded::Creep(name, _) => EnergyDropOff::Creep(name.clone()),
        }
    }

    /// The position the snapshot reported for this target.
    pub fn pos(&self) -> (r: Pos)
        ensures
            r == spec_drop_off_pos(*self),
    {
        match self {
            EnergyDropOffLoaded::Spawn(_, p) => *p,
            EnergyDropOffLoaded::Creep(_, p) => *p,
        }
    }

    /// Judges the host outcome of the transfer order a delivery issued to
    /// this target: `Okay` is success, anything else is surfaced as the
    /// recoverable failure code.
    pub fn accept_energy(&self, code: ReturnCode) -> (r: Result<ReturnCode, ReturnCode>)
        ensures
            code == ReturnCode::Okay ==> r == Result::<ReturnCode, ReturnCode>::Ok(
                ReturnCode::Okay,
            ),
            code != ReturnCode::Okay ==> r == Result::<ReturnCode, ReturnCode>::Err(code),
    {
        if code == ReturnCode::Okay {
            Ok(ReturnCode::Okay)
        } else {
            Err(code)
        }
    }
}

/// Round trip of a destination: a resolved drop-off compressed back to its
/// persisted form and re-resolved references the same underlying entity —
/// or fails cleanly when that entity is no longer in the snapshot. It
/// never resolves to a different entity.
pub proof fn lemma_destination_round_trip(loaded: EnergyDropOffLoaded, world: World)
    ensures
        match spec_preload(spec_compress(loaded), world) {
            Some(again) => spec_same_entity(again, loaded),
            None => match loaded {
                EnergyDropOffLoaded::Spawn(id, _) => !world.spec_has_facility(id),
                EnergyDropOffLoaded::Creep(name, _) => !world.spec_has_worker(name@),
            },
        },
{
}

} // verus!
