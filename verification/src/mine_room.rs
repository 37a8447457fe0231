//! Extraction-site pipeline: for each resource node of a colony location,
//! drives an extractor/transporter pair through towing, extraction, pickup
//! and drop-off, one step per node per tick.
//!
//! Nothing is stored between ticks: the pipeline re-derives its state from
//! live positions and inventory each tick and emits a [`PipelinePlan`] — a
//! chain of host orders with abort-on-first-failure semantics. The caller
//! executes the orders in sequence, stops at the first outcome that is not
//! `Okay`, and hands the gathered outcomes to [`node_outcome`] for the
//! node's per-tick verdict.

use vstd::prelude::*;

use crate::codes::Part;
use crate::codes::ReturnCode;
use crate::energy_distributer::EnergyDropOff;
use crate::energy_distributer::EnergyDropOffLoaded;
use crate::energy_distributer::spec_drop_off_pos;
use crate::spawn_room::spec_cache_stack;
use crate::world::EntityId;
use crate::world::Pos;
use crate::world::spec_near;
use crate::world::spec_range;

verus! {

/// The two cooperating worker roles of the pipeline.
#[derive(Clone, Copy, PartialEq, Eq, Structural, Debug)]
pub enum Role {
    Harvester,
    Hauler,
}

/// Which step of the pipeline an order belongs to, for error reports.
#[derive(Clone, Copy, PartialEq, Eq, Structural, Debug)]
pub enum MinePhase {
    /// Transporter walks toward the extractor to establish the tow link.
    ApproachHarvester,
    /// Both halves of the tow link (pull, accept-pull).
    LinkTow,
    /// Final placement: the extractor is dragged onto the node through the
    /// swapped tow link.
    DragToNode,
    /// Transporter, towing, walks toward the node.
    ApproachNode,
    /// Extractor harvests the node.
    Harvesting,
    /// Transporter walks toward the extractor to pick up the drop.
    ApproachPickup,
    /// Transporter picks up the dropped resource pile.
    PickupEnergy,
    /// Transporter walks toward the resolved drop-off.
    ApproachDropOff,
    /// Transporter hands its load to the drop-off.
    DropOffTransfer,
}

/// One host order of a pipeline plan.
pub enum MineOrderKind {
    /// The actor path-walks toward the named worker.
    MoveToWorker(String),
    /// The actor path-walks toward a position.
    MoveToPos(Pos),
    /// Tow link: the actor pulls the named worker, who accepts the pull.
    /// Its outcome is the pair of codes of the two halves.
    LinkTow(String),
    /// The actor moves pulled by the named worker (roles swapped for the
    /// final placement step).
    MovePulledBy(String),
    /// The actor harvests the node with the given id.
    HarvestNode(EntityId),
    /// The actor picks up the dropped pile with the given id.
    PickupPile(EntityId),
    /// The actor transfers its resource load to the drop-off target.
    TransferTo(EnergyDropOff),
}

/// One planned order: who acts, at which pipeline step, doing what.
pub struct MineOrder {
    pub actor: String,
    pub phase: MinePhase,
    pub kind: MineOrderKind,
}

/// The host outcome of one executed order: a single code, or the pair of
/// codes of a tow link.
#[derive(Clone, Copy, PartialEq, Eq, Structural, Debug)]
pub enum MineOutcome {
    Single(ReturnCode),
    Link(ReturnCode, ReturnCode),
}

/// Why a node's pipeline step failed this tick. Every variant is
/// recoverable: the node is skipped for the tick and retried next tick
/// against fresh world state.
#[derive(Clone, Copy, PartialEq, Eq, Structural, Debug)]
pub enum MineError {
    /// An order's host outcome was not `Okay`.
    UnexpectedOutcome { phase: MinePhase, code: ReturnCode },
    /// The tow link failed; both halves' codes, for the report.
    LinkFailed { pull_code: ReturnCode, follow_code: ReturnCode },
    /// The transporter stands ready to pick up, but no pile lies at the
    /// extractor's position.
    NoEnergyPile,
    /// The persisted drop-off no longer resolves against the snapshot.
    DropOffUnresolved,
    /// The stored resource node no longer resolves against the snapshot;
    /// the node's whole unit of work is skipped for the tick.
    SourceGone,
    /// The named role could not be acquired this tick.
    Allocation(Role),
}

/// A node's orders for one tick, executed front to back, aborting at the
/// first outcome that is not `Okay`; when every order succeeds, `terminal`
/// is the error still owed (or nothing, the step succeeded).
pub struct PipelinePlan {
    pub orders: Vec<MineOrder>,
    pub terminal: Option<MineError>,
}

/// The world facts one node's planning reads, all derived from the tick's
/// snapshot.
pub struct NodeFacts {
    pub source_id: EntityId,
    pub source_pos: Pos,
    pub harvester_name: String,
    pub harvester_pos: Pos,
    pub hauler_name: String,
    pub hauler_pos: Pos,
    pub hauler_free_capacity: u32,
    /// First dropped pile at the extractor's position, if any.
    pub pile: Option<EntityId>,
    /// The drop-off, resolved against the snapshot, if it still exists.
    pub drop_off: Option<EnergyDropOffLoaded>,
}

/// An order's outcome has the shape its kind calls for: a pair for the
/// tow link, a single code for everything else.
pub open spec fn spec_outcome_matches(kind: MineOrderKind, out: MineOutcome) -> bool {
    match kind {
        MineOrderKind::LinkTow(_) => out is Link,
        _ => out is Single,
    }
}

/// The order succeeded: its code — both its codes, for a link — is `Okay`.
pub open spec fn spec_outcome_success(out: MineOutcome) -> bool {
    match out {
        MineOutcome::Single(c) => c == ReturnCode::Okay,
        MineOutcome::Link(c1, c2) => c1 == ReturnCode::Okay && c2 == ReturnCode::Okay,
    }
}

/// The error a failed order surfaces.
pub open spec fn spec_order_error(o: MineOrder, out: MineOutcome) -> MineError {
    match out {
        MineOutcome::Single(c) => MineError::UnexpectedOutcome { phase: o.phase, code: c },
        MineOutcome::Link(c1, c2) => MineError::LinkFailed { pull_code: c1, follow_code: c2 },
    }
}

/// The orders the towing step issues: approach the extractor when not yet
/// adjacent; otherwise establish the tow link, then either drag the
/// extractor the final step onto the node (when already adjacent to it)
/// or walk toward the node.
pub open spec fn spec_tow_orders(f: NodeFacts) -> Seq<MineOrder> {
    if spec_near(f.hauler_pos, f.harvester_pos) {
        let link = MineOrder {
            actor: f.hauler_name,
            phase: MinePhase::LinkTow,
            kind: MineOrderKind::LinkTow(f.harvester_name),
        };
        if spec_near(f.hauler_pos, f.source_pos) {
            seq![
                link,
                MineOrder {
                    actor: f.hauler_name,
                    phase: MinePhase::DragToNode,
                    kind: MineOrderKind::MovePulledBy(f.harvester_name),
                },
            ]
        } else {
            seq![
                link,
                MineOrder {
                    actor: f.hauler_name,
                    phase: MinePhase::ApproachNode,
                    kind: MineOrderKind::MoveToPos(f.source_pos),
                },
            ]
        }
    } else {
        seq![
            MineOrder {
                actor: f.hauler_name,
                phase: MinePhase::ApproachHarvester,
                kind: MineOrderKind::MoveToWorker(f.harvester_name),
            },
        ]
    }
}

/// The single harvest order of the extraction step.
pub open spec fn spec_mine_orders(f: NodeFacts) -> Seq<MineOrder> {
    seq![
        MineOrder {
            actor: f.harvester_name,
            phase: MinePhase::Harvesting,
            kind: MineOrderKind::HarvestNode(f.source_id),
        },
    ]
}

/// The orders of the hauling step: with free capacity, pick up at the
/// extractor (walking there first if needed); with a full load, deliver
/// to the resolved drop-off (walking there first if needed).
pub open spec fn spec_haul_orders(f: NodeFacts) -> Seq<MineOrder> {
    if f.hauler_free_capacity > 0 {
        if spec_near(f.hauler_pos, f.harvester_pos) {
            match f.pile {
                Some(pile_id) => seq![
                    MineOrder {
                        actor: f.hauler_name,
                        phase: MinePhase::PickupEnergy,
                        kind: MineOrderKind::PickupPile(pile_id),
                    },
                ],
                None => Seq::empty(),
            }
        } else {
            seq![
                MineOrder {
                    actor: f.hauler_name,
                    phase: MinePhase::ApproachPickup,
                    kind: MineOrderKind::MoveToWorker(f.harvester_name),
                },
            ]
        }
    } else {
        match f.drop_off {
            Some(d) => if spec_near(f.hauler_pos, spec_drop_off_pos(d)) {
                seq![
                    MineOrder {
                        actor: f.hauler_name,
                        phase: MinePhase::DropOffTransfer,
                        kind: MineOrderKind::TransferTo(
                            crate::energy_distributer::spec_compress(d),
                        ),
                    },
                ]
            } else {
                seq![
                    MineOrder {
                        actor: f.hauler_name,
                        phase: MinePhase::ApproachDropOff,
                        kind: MineOrderKind::MoveToPos(spec_drop_off_pos(d)),
                    },
                ]
            },
            None => Seq::empty(),
        }
    }
}

/// The error the hauling step still owes when all its orders succeed: no
/// pile to pick up, or an unresolvable drop-off.
pub open spec fn spec_haul_terminal(f: NodeFacts) -> Option<MineError> {
    if f.hauler_free_capacity > 0 {
        if spec_near(f.hauler_pos, f.harvester_pos) && f.pile is None {
            Some(MineError::NoEnergyPile)
        } else {
            None
        }
    } else {
        if f.drop_off is None {
            Some(MineError::DropOffUnresolved)
        } else {
            None
        }
    }
}

/// The whole node step for one tick: with the extractor adjacent to the
/// node, extract and haul in the same tick; otherwise tow the extractor
/// toward the node. If either role's acquisition failed, the node is
/// skipped entirely for the tick: no order at all is issued for it.
pub open spec fn spec_node_orders(have_harvester: bool, have_hauler: bool, f: NodeFacts) -> Seq<
    MineOrder,
> {
    if !have_harvester || !have_hauler {
        Seq::empty()
    } else if spec_near(f.harvester_pos, f.source_pos) {
        spec_mine_orders(f) + spec_haul_orders(f)
    } else {
        spec_tow_orders(f)
    }
}

/// The error the node step still owes when all its issued orders succeed.
pub open spec fn spec_node_terminal(have_harvester: bool, have_hauler: bool, f: NodeFacts) -> Option<
    MineError,
> {
    if !have_harvester {
        Some(MineError::Allocation(Role::Harvester))
    } else if !have_hauler {
        Some(MineError::Allocation(Role::Hauler))
    } else if spec_near(f.harvester_pos, f.source_pos) {
        spec_haul_terminal(f)
    } else {
        None
    }
}

/// One extraction site: its location, the pool location that supplies its
/// workers, the persisted drop-off, and the owned resource-node ids in
/// ascending travel distance to the drop-off — fixed at construction, the
/// per-tick service order.
pub struct MineRoom {
    pub room_name: String,
    pub spawn_room_name: String,
    pub energy_drop_off: EnergyDropOff,
    pub source_ids: Vec<EntityId>,
}

impl MineRoom {
    /// Stored node ids are pairwise distinct: each node is serviced once
    /// per tick.
    pub open spec fn wf(self) -> bool {
        forall|a: int, b: int|
            0 <= a < b < self.source_ids@.len() ==> self.source_ids@[a] != self.source_ids@[b]
    }
}

/// The position of the node with the given id, where ids are unique.
pub open spec fn spec_source_pos(sources: Seq<crate::world::NodeInfo>, id: EntityId) -> Pos {
    sources[choose|i: int| 0 <= i < sources.len() && sources[i].id == id].pos
}

/// A pair of the sort is a node's (distance, id) against the drop-off.
pub open spec fn spec_pair_wf(
    sources: Seq<crate::world::NodeInfo>,
    dpos: Pos,
    e: (u32, EntityId),
) -> bool {
    exists|j: int|
        0 <= j < sources.len() && (#[trigger] sources[j]).id == e.1 && e.0 == spec_range(
            sources[j].pos,
            dpos,
        )
}

proof fn lemma_source_pos(sources: Seq<crate::world::NodeInfo>, j: int)
    requires
        forall|a: int, b: int| 0 <= a < b < sources.len() ==> sources[a].id != sources[b].id,
        0 <= j < sources.len(),
    ensures
        spec_source_pos(sources, sources[j].id) == sources[j].pos,
{
    let i = choose|i: int| 0 <= i < sources.len() && sources[i].id == sources[j].id;
    assert(i == j);
}

fn sort_pairs(input: Vec<(u32, EntityId)>) -> (r: Vec<(u32, EntityId)>)
    ensures
        r@.len() == input@.len(),
        r@.to_multiset() == input@.to_multiset(),
        forall|a: int, b: int| 0 <= a < b < r@.len() ==> r@[a].0 <= r@[b].0,
{
    broadcast use vstd::seq_lib::group_to_multiset_ensures;

    let n = input.len();
    let mut out: Vec<(u32, EntityId)> = Vec::new();
    let mut i: usize = 0;
    while i < n
        invariant
            n == input@.len(),
            0 <= i <= n,
            out@.len() == i,
            out@.to_multiset() == input@.take(i as int).to_multiset(),
            forall|a: int, b: int| 0 <= a < b < out@.len() ==> out@[a].0 <= out@[b].0,
        decreases n - i,
    {
        let e = input[i];
        let mut j: usize = 0;
        while j < out.len() && out[j].0 <= e.0
            invariant
                0 <= j <= out@.len(),
                forall|k: int| 0 <= k < j ==> out@[k].0 <= e.0,
                forall|a: int, b: int| 0 <= a < b < out@.len() ==> out@[a].0 <= out@[b].0,
            decreases out@.len() - j,
        {
            j = j + 1;
        }
        let ghost out_pre = out@;
        out.insert(j, e);
        proof {
            out_pre.insert_ensures(j as int, e);
            vstd::seq_lib::to_multiset_insert(out_pre, j as int, e);
            vstd::seq_lib::to_multiset_build(input@.take(i as int), input@[i as int]);
            assert(input@.take(i as int).push(input@[i as int]) =~= input@.take(i as int + 1));
            assert(out@.to_multiset() == input@.take(i as int + 1).to_multiset());
            assert forall|a: int, b: int| 0 <= a < b < out@.len() implies out@[a].0 <= out@[b].0 by {
                if b < j {
                } else if a < j && b == j {
                    assert(out@[a] == out_pre[a]);
                    assert(out@[b] == e);
                } else if a < j && b > j {
                    assert(out@[a] == out_pre[a]);
                    assert(out@[b] == out_pre[b - 1]);
                    assert(out_pre[a].0 <= e.0);
                    if j < out_pre.len() {
                        assert(out_pre[a].0 <= out_pre[b - 1].0);
                    }
                } else if a == j {
                    assert(out@[a] == e);
                    assert(out@[b] == out_pre[b - 1]);
                    assert(e.0 < out_pre[j as int].0);
                    assert(out_pre[j as int].0 <= out_pre[b - 1].0);
                } else {
                    assert(out@[a] == out_pre[a - 1]);
                    assert(out@[b] == out_pre[b - 1]);
                }
            }
        }
        i = i + 1;
    }
    proof {
        assert(input@.take(n as int) =~= input@);
    }
    out
}

impl MineRoom {
    /// Builds the pipeline for one location: compresses the drop-off to
    /// its persisted form and fixes the node service order, ascending by
    /// travel distance from each node to the drop-off's position at
    /// construction time. The order is a permutation of the given nodes'
    /// ids and is never re-sorted later, even if the drop-off moves.
    pub fn new(
        room_name: String,
        spawn_room_name: String,
        energy_drop_off: EnergyDropOffLoaded,
        sources: &Vec<crate::world::NodeInfo>,
    ) -> (r: Self)
        requires
            forall|a: int, b: int|
                0 <= a < b < sources@.len() ==> sources@[a].id != sources@[b].id,
        ensures
            r.room_name == room_name,
            r.spawn_room_name == spawn_room_name,
            r.energy_drop_off == crate::energy_distributer::spec_compress(energy_drop_off),
            r.source_ids@.len() == sources@.len(),
            forall|a: int, b: int|
                0 <= a < b < r.source_ids@.len() ==> r.source_ids@[a] != r.source_ids@[b],
            r.wf(),
            forall|j: int|
                0 <= j < sources@.len() ==> r.source_ids@.contains((#[trigger] sources@[j]).id),
            forall|a: int, b: int|
                0 <= a < b < r.source_ids@.len() ==> spec_range(
                    spec_source_pos(sources@, r.source_ids@[a]),
                    spec_drop_off_pos(energy_drop_off),
                ) <= spec_range(
                    spec_source_pos(sources@, r.source_ids@[b]),
                    spec_drop_off_pos(energy_drop_off),
                ),
    {
        broadcast use vstd::seq_lib::group_to_multiset_ensures;

        let dpos = energy_drop_off.pos();
        let n = sources.len();
        let mut pairs: Vec<(u32, EntityId)> = Vec::new();
        let mut i: usize = 0;
        while i < n
            invariant
                n == sources@.len(),
                0 <= i <= n,
                pairs@.len() == i,
                dpos == spec_drop_off_pos(energy_drop_off),
                forall|k: int|
                    0 <= k < i ==> (#[trigger] pairs@[k]).0 == spec_range(sources@[k].pos, dpos)
                        && pairs@[k].1 == sources@[k].id,
            decreases n - i,
        {
            let d = sources[i].pos.range_to(&dpos);
            pairs.push((d, sources[i].id));
            i = i + 1;
        }
        let ghost pairs_view = pairs@;
        let sorted = sort_pairs(pairs);
        proof {
            // every element of the sorted list is an element of `pairs`,
            // hence a (distance, id) of some node
            assert forall|k: int| 0 <= k < sorted@.len() implies spec_pair_wf(
                sources@,
                dpos,
                #[trigger] sorted@[k],
            ) && spec_range(spec_source_pos(sources@, sorted@[k].1), dpos) == sorted@[k].0 by {
                assert(sorted@.contains(sorted@[k]));
                assert(sorted@.to_multiset().count(sorted@[k]) > 0);
                assert(pairs_view.to_multiset().count(sorted@[k]) > 0);
                assert(pairs_view.contains(sorted@[k]));
                let j = choose|j: int| 0 <= j < pairs_view.len() && pairs_view[j] == sorted@[k];
                assert(sources@[j].id == sorted@[k].1);
                lemma_source_pos(sources@, j);
            }
            // `pairs` holds pairwise-distinct values (its ids are), so
            // the sorted permutation has no duplicate pairs either
            assert forall|x: int, y: int|
                0 <= x < pairs_view.len() && 0 <= y < pairs_view.len() && x != y implies pairs_view[x]
                != pairs_view[y] by {
                assert(pairs_view[x].1 == sources@[x].id);
                assert(pairs_view[y].1 == sources@[y].id);
            }
            assert(pairs_view.no_duplicates());
            pairs_view.lemma_multiset_has_no_duplicates();
            sorted@.lemma_multiset_has_no_duplicates_conv();
            // distinct ids: two sorted entries with one id describe one
            // node, hence are one pair — impossible among distinct pairs
            assert forall|a: int, b: int| 0 <= a < b < sorted@.len() implies sorted@[a].1
                != sorted@[b].1 by {
                if sorted@[a].1 == sorted@[b].1 {
                    let ja = choose|j: int|
                        0 <= j < sources@.len() && (#[trigger] sources@[j]).id == sorted@[a].1
                            && sorted@[a].0 == spec_range(sources@[j].pos, dpos);
                    let jb = choose|j: int|
                        0 <= j < sources@.len() && (#[trigger] sources@[j]).id == sorted@[b].1
                            && sorted@[b].0 == spec_range(sources@[j].pos, dpos);
                    assert(ja == jb);
                    assert(sorted@[a].0 == sorted@[b].0);
                    assert(sorted@[a] == sorted@[b]);
                    assert(false);
                }
            }
            // every node id occurs
            assert forall|j: int| 0 <= j < sources@.len() implies exists|k: int|
                0 <= k < sorted@.len() && (#[trigger] sorted@[k]).1 == (#[trigger] sources@[j]).id by {
                assert(pairs_view[j].0 == spec_range(sources@[j].pos, dpos));
                assert(pairs_view[j].1 == sources@[j].id);
                assert(pairs_view.contains(pairs_view[j]));
                assert(pairs_view.to_multiset().count(pairs_view[j]) > 0);
                assert(sorted@.to_multiset().count(pairs_view[j]) > 0);
                assert(sorted@.contains(pairs_view[j]));
                let k = choose|k: int| 0 <= k < sorted@.len() && sorted@[k] == pairs_view[j];
                assert(sorted@[k].1 == sources@[j].id);
            }
        }
        let m = sorted.len();
        let mut ids: Vec<EntityId> = Vec::new();
        let mut k: usize = 0;
        while k < m
            invariant
                m == sorted@.len(),
                0 <= k <= m,
                ids@.len() == k,
                forall|x: int| 0 <= x < k ==> ids@[x] == (#[trigger] sorted@[x]).1,
            decreases m - k,
        {
            ids.push(sorted[k].1);
            k = k + 1;
        }
        proof {
            assert forall|j: int| 0 <= j < sources@.len() implies ids@.contains(
                (#[trigger] sources@[j]).id,
            ) by {
                let kk = choose|kk: int|
                    0 <= kk < sorted@.len() && (#[trigger] sorted@[kk]).1 == sources@[j].id;
                assert(ids@[kk] == sources@[j].id);
            }
            assert forall|a: int, b: int| 0 <= a < b < ids@.len() implies ids@[a] != ids@[b] by {
                assert(ids@[a] == sorted@[a].1);
                assert(ids@[b] == sorted@[b].1);
                assert(sorted@[a].1 != sorted@[b].1);
            }
            assert forall|a: int, b: int| 0 <= a < b < ids@.len() implies spec_range(
                spec_source_pos(sources@, ids@[a]),
                dpos,
            ) <= spec_range(spec_source_pos(sources@, ids@[b]), dpos) by {
                assert(spec_range(spec_source_pos(sources@, sorted@[a].1), dpos) == sorted@[a].0);
                assert(spec_range(spec_source_pos(sources@, sorted@[b].1), dpos) == sorted@[b].0);
                assert(sorted@[a].0 <= sorted@[b].0);
            }
        }
        Self {
            room_name,
            spawn_room_name,
            energy_drop_off: energy_drop_off.compress(),
            source_ids: ids,
        }
    }

    /// The worker composition for a new extractor: one work part plus as
    /// many more as the available resource can pay for, capped at the
    /// count that fully drains a node over its regeneration cycle.
    pub fn get_harvester_body(energy_available: u32) -> (r: Vec<Part>)
        requires
            energy_available >= 100,
        ensures
            r@.len() == 1 + (if (energy_available - 100) / 100 < 4 {
                (energy_available - 100) / 100
            } else {
                4
            }),
            forall|k: int| 0 <= k < r@.len() ==> r@[k] == Part::Work,
    {
        let req_work = crate::codes::SOURCE_ENERGY_CAPACITY / crate::codes::ENERGY_REGEN_TIME / 2;
        let work_cost = Part::Work.cost();
        let max_addl_work = (energy_available - work_cost) / work_cost;
        let addl = if max_addl_work < req_work - 1 {
            max_addl_work
        } else {
            req_work - 1
        };
        let mut harvester_body: Vec<Part> = Vec::new();
        harvester_body.push(Part::Work);
        let mut i: u32 = 0;
        while i < addl
            invariant
                0 <= i <= addl,
                harvester_body@.len() == 1 + i,
                forall|k: int| 0 <= k < harvester_body@.len() ==> harvester_body@[k] == Part::Work,
            decreases addl - i,
        {
            harvester_body.push(Part::Work);
            i = i + 1;
        }
        harvester_body
    }

    /// The fixed worker composition for a new transporter.
    pub fn get_hauler_body(_energy_available: u32) -> (r: Vec<Part>)
        ensures
            r@ == seq![Part::Move, Part::Carry, Part::Move, Part::Carry],
    {
        let mut body: Vec<Part> = Vec::new();
        body.push(Part::Move);
        body.push(Part::Carry);
        body.push(Part::Move);
        body.push(Part::Carry);
        proof {
            assert(body@ =~= seq![Part::Move, Part::Carry, Part::Move, Part::Carry]);
        }
        body
    }

    /// Plans the towing step: bring the extractor adjacent to the node
    /// through the transporter's tow link.
    pub fn tow_to_source(&self, f: &NodeFacts) -> (p: PipelinePlan)
        ensures
            p.orders@ == spec_tow_orders(*f),
            p.terminal is None,
    {
        let mut orders: Vec<MineOrder> = Vec::new();
        if f.hauler_pos.is_near_to(&f.harvester_pos) {
            orders.push(
                MineOrder {
                    actor: f.hauler_name.clone(),
                    phase: MinePhase::LinkTow,
                    kind: MineOrderKind::LinkTow(f.harvester_name.clone()),
                },
            );
            if f.hauler_pos.is_near_to(&f.source_pos) {
                orders.push(
                    MineOrder {
                        actor: f.hauler_name.clone(),
                        phase: MinePhase::DragToNode,
                        kind: MineOrderKind::MovePulledBy(f.harvester_name.clone()),
                    },
                );
            } else {
                orders.push(
                    MineOrder {
                        actor: f.hauler_name.clone(),
                        phase: MinePhase::ApproachNode,
                        kind: MineOrderKind::MoveToPos(f.source_pos),
                    },
                );
            }
        } else {
            orders.push(
                MineOrder {
                    actor: f.hauler_name.clone(),
                    phase: MinePhase::ApproachHarvester,
                    kind: MineOrderKind::MoveToWorker(f.harvester_name.clone()),
                },
            );
        }
        proof {
            assert(orders@ =~= spec_tow_orders(*f));
        }
        PipelinePlan { orders, terminal: None }
    }

    /// Plans the extraction step: the single harvest order.
    pub fn mine_source(&self, f: &NodeFacts) -> (p: PipelinePlan)
        ensures
            p.orders@ == spec_mine_orders(*f),
            p.terminal is None,
    {
        let mut orders: Vec<MineOrder> = Vec::new();
        orders.push(
            MineOrder {
                actor: f.harvester_name.clone(),
                phase: MinePhase::Harvesting,
                kind: MineOrderKind::HarvestNode(f.source_id),
            },
        );
        proof {
            assert(orders@ =~= spec_mine_orders(*f));
        }
        PipelinePlan { orders, terminal: None }
    }

    /// Plans the hauling step: pick up the drop with free capacity, else
    /// deliver the load to the resolved drop-off.
    pub fn haul_energy(&self, f: &NodeFacts) -> (p: PipelinePlan)
        ensures
            p.orders@ == spec_haul_orders(*f),
            p.terminal == spec_haul_terminal(*f),
    {
        let mut orders: Vec<MineOrder> = Vec::new();
        let mut terminal: Option<MineError> = None;
        if f.hauler_free_capacity > 0 {
            if f.hauler_pos.is_near_to(&f.harvester_pos) {
                match &f.pile {
                    Some(pile_id) => {
                        orders.push(
                            MineOrder {
                                actor: f.hauler_name.clone(),
                                phase: MinePhase::PickupEnergy,
                                kind: MineOrderKind::PickupPile(*pile_id),
                            },
                        );
                    },
                    None => {
                        terminal = Some(MineError::NoEnergyPile);
                    },
                }
            } else {
                orders.push(
                    MineOrder {
                        actor: f.hauler_name.clone(),
                        phase: MinePhase::ApproachPickup,
                        kind: MineOrderKind::MoveToWorker(f.harvester_name.clone()),
                    },
                );
            }
        } else {
            match &f.drop_off {
                Some(d) => {
                    let dpos = d.pos();
                    if f.hauler_pos.is_near_to(&dpos) {
                        orders.push(
                            MineOrder {
                                actor: f.hauler_name.clone(),
                                phase: MinePhase::DropOffTransfer,
                                kind: MineOrderKind::TransferTo(d.compress()),
                            },
                        );
                    } else {
                        orders.push(
                            MineOrder {
                                actor: f.hauler_name.clone(),
                                phase: MinePhase::ApproachDropOff,
                                kind: MineOrderKind::MoveToPos(dpos),
                            },
                        );
                    }
                },
                None => {
                    terminal = Some(MineError::DropOffUnresolved);
                },
            }
        }
        proof {
            assert(orders@ =~= spec_haul_orders(*f));
        }
        PipelinePlan { orders, terminal }
    }

    /// Plans one node's whole tick: extract-then-haul when the extractor
    /// stands at the node, towing otherwise. If either role could not be
    /// acquired, the node is skipped for the tick: nothing is issued and
    /// the missing role is reported.
    pub fn process_source(
        &self,
        have_harvester: bool,
        have_hauler: bool,
        f: &NodeFacts,
    ) -> (p: PipelinePlan)
        ensures
            p.orders@ == spec_node_orders(have_harvester, have_hauler, *f),
            p.terminal == spec_node_terminal(have_harvester, have_hauler, *f),
    {
        if !have_harvester {
            return PipelinePlan {
                orders: Vec::new(),
                terminal: Some(MineError::Allocation(Role::Harvester)),
            };
        }
        if !have_hauler {
            return PipelinePlan {
                orders: Vec::new(),
                terminal: Some(MineError::Allocation(Role::Hauler)),
            };
        }
        if f.harvester_pos.is_near_to(&f.source_pos) {
            let mut p = self.mine_source(f);
            let mut haul = self.haul_energy(f);
            let ghost mine_orders = p.orders@;
            let ghost haul_orders = haul.orders@;
            p.orders.append(&mut haul.orders);
            p.terminal = haul.terminal;
            proof {
                assert(p.orders@ =~= mine_orders + haul_orders);
            }
            p
        } else {
            self.tow_to_source(f)
        }
    }
}

/// Everything one node's tick produced: the acquisition decisions for the
/// two roles (absent when the node itself no longer resolves, in which
/// case nothing was acquired), the facts the planning read, and the plan
/// the caller is to execute. Where a role's request is `DoSpawn`, the
/// caller issues the production order and judges its code with
/// `Hive::spawn_result`.
pub struct NodeWork {
    pub source_id: EntityId,
    pub harvester_name: String,
    pub hauler_name: String,
    pub harvester_req: Option<crate::hive::CreepRequest>,
    pub hauler_req: Option<crate::hive::CreepRequest>,
    pub facts: NodeFacts,
    pub plan: PipelinePlan,
}

/// The role request is an acquired live worker.
pub open spec fn spec_req_is_use(o: Option<crate::hive::CreepRequest>) -> bool {
    o matches Some(q) && q is UseExisting
}

/// The pool stack left after one node's draws: the transporter's, then
/// the extractor's, each only when its name reaches production; a node
/// absent from the snapshot is skipped and draws nothing.
pub open spec fn spec_stack_after_node(
    tasks: crate::tasks::Tasks,
    world: crate::world::World,
    sid: EntityId,
    hn: String,
    ln: String,
    s: Seq<EntityId>,
) -> Seq<EntityId> {
    if !world.spec_has_node(sid) {
        s
    } else {
        let s1 = if crate::hive::spec_draw_reached(tasks, world, ln@) {
            crate::hive::spec_pop(s)
        } else {
            s
        };
        if crate::hive::spec_draw_reached(tasks, world, hn@) {
            crate::hive::spec_pop(s1)
        } else {
            s1
        }
    }
}

/// The pool stack before the k-th node of a pipeline pass: the tick's
/// initial stack minus every draw of the earlier nodes.
pub open spec fn spec_stack_before_node(
    tasks: crate::tasks::Tasks,
    world: crate::world::World,
    sids: Seq<EntityId>,
    names: Seq<(String, String)>,
    s0: Seq<EntityId>,
    k: int,
) -> Seq<EntityId>
    decreases k,
{
    if k <= 0 {
        s0
    } else {
        spec_stack_after_node(
            tasks,
            world,
            sids[k - 1],
            names[k - 1].0,
            names[k - 1].1,
            spec_stack_before_node(tasks, world, sids, names, s0, k - 1),
        )
    }
}

/// One node's tick work is consistent: a node absent from the snapshot
/// is skipped whole (nothing acquired, nothing issued, the absence
/// reported); otherwise the facts match the snapshot, the acquisition
/// outcomes respect busy-exclusion, hand out live workers, and draw the
/// pool exactly (non-urgent sizing under the role's policy), and the
/// plan is exactly the one those facts and outcomes call for.
pub open spec fn spec_node_work_ok(
    room: MineRoom,
    w: NodeWork,
    sid: EntityId,
    hn: String,
    ln: String,
    tasks: crate::tasks::Tasks,
    world: crate::world::World,
    has_pool: bool,
    energy: u32,
    s_before: Seq<EntityId>,
) -> bool {
    &&& w.source_id == sid
    &&& w.harvester_name == hn
    &&& w.hauler_name == ln
    &&& if !world.spec_has_node(sid) {
        &&& w.harvester_req is None
        &&& w.hauler_req is None
        &&& w.plan.orders@.len() == 0
        &&& w.plan.terminal == Some(MineError::SourceGone)
    } else {
        &&& w.harvester_req is Some
        &&& w.hauler_req is Some
        &&& w.facts.source_id == sid
        &&& w.facts.source_pos == world.spec_node(sid).pos
        &&& w.facts.harvester_name == hn
        &&& w.facts.hauler_name == ln
        &&& (tasks.spec_has_task(hn@) ==> w.harvester_req == Some(
            crate::hive::CreepRequest::Refused(crate::hive::GetCreepError::CreepBusy),
        ))
        &&& (tasks.spec_has_task(ln@) ==> w.hauler_req == Some(
            crate::hive::CreepRequest::Refused(crate::hive::GetCreepError::CreepBusy),
        ))
        &&& (!tasks.spec_has_task(hn@) && world.spec_has_worker(hn@) ==> w.harvester_req == Some(
            (if !world.spec_worker(hn@).spawning {
                crate::hive::CreepRequest::UseExisting
            } else {
                crate::hive::CreepRequest::Refused(crate::hive::GetCreepError::SpawningInProgress)
            }),
        ))
        &&& (!tasks.spec_has_task(ln@) && world.spec_has_worker(ln@) ==> w.hauler_req == Some(
            (if !world.spec_worker(ln@).spawning {
                crate::hive::CreepRequest::UseExisting
            } else {
                crate::hive::CreepRequest::Refused(crate::hive::GetCreepError::SpawningInProgress)
            }),
        ))
        &&& (!has_pool && crate::hive::spec_draw_reached(tasks, world, hn@) ==> w.harvester_req
            == Some(
            crate::hive::CreepRequest::Refused(crate::hive::GetCreepError::NoSpawnAvailable),
        ))
        &&& (!has_pool && crate::hive::spec_draw_reached(tasks, world, ln@) ==> w.hauler_req
            == Some(
            crate::hive::CreepRequest::Refused(crate::hive::GetCreepError::NoSpawnAvailable),
        ))
        &&& (has_pool && crate::hive::spec_draw_reached(tasks, world, ln@) ==> (
        w.hauler_req matches Some(q) && crate::hive::spec_draw_ok(
            q,
            crate::hive::BodyPolicy::HaulerPolicy,
            energy,
            s_before,
        )))
        &&& (has_pool && crate::hive::spec_draw_reached(tasks, world, hn@) ==> (
        w.harvester_req matches Some(q) && crate::hive::spec_draw_ok(
            q,
            crate::hive::BodyPolicy::HarvesterPolicy,
            energy,
            if crate::hive::spec_draw_reached(tasks, world, ln@) {
                crate::hive::spec_pop(s_before)
            } else {
                s_before
            },
        )))
        &&& (spec_req_is_use(w.harvester_req) ==> world.spec_has_worker(hn@)
            && !world.spec_worker(hn@).spawning && w.facts.harvester_pos == world.spec_worker(
            hn@,
        ).pos)
        &&& (spec_req_is_use(w.hauler_req) ==> world.spec_has_worker(ln@) && !world.spec_worker(
            ln@,
        ).spawning && w.facts.hauler_pos == world.spec_worker(ln@).pos
            && w.facts.hauler_free_capacity == world.spec_worker(ln@).free_capacity)
        &&& (w.facts.pile matches Some(p) ==> exists|i: int|
            0 <= i < world.piles@.len() && (#[trigger] world.piles@[i]).id == p
                && world.piles@[i].pos == w.facts.harvester_pos)
        &&& (w.facts.pile is None ==> !world.spec_has_pile_at(w.facts.harvester_pos))
        &&& w.facts.drop_off == crate::energy_distributer::spec_preload(
            room.energy_drop_off,
            world,
        )
        &&& w.plan.orders@ == spec_node_orders(
            spec_req_is_use(w.harvester_req),
            spec_req_is_use(w.hauler_req),
            w.facts,
        )
        &&& w.plan.terminal == spec_node_terminal(
            spec_req_is_use(w.harvester_req),
            spec_req_is_use(w.hauler_req),
            w.facts,
        )
    }
}

/// A whole pipeline pass over a room is consistent: one entry per stored
/// node, in the fixed service order, each consistent per
/// [`spec_node_work_ok`] against the pool stack left by the draws of the
/// earlier nodes (starting from the tick's initial stack `s0`).
pub open spec fn spec_room_work_ok(
    room: MineRoom,
    nodes: Seq<NodeWork>,
    names: Seq<(String, String)>,
    tasks: crate::tasks::Tasks,
    world: crate::world::World,
    has_pool: bool,
    energy: u32,
    s0: Seq<EntityId>,
) -> bool {
    &&& nodes.len() == room.source_ids@.len()
    &&& forall|k: int|
        0 <= k < nodes.len() ==> spec_node_work_ok(
            room,
            #[trigger] nodes[k],
            room.source_ids@[k],
            names[k].0,
            names[k].1,
            tasks,
            world,
            has_pool,
            energy,
            spec_stack_before_node(tasks, world, room.source_ids@, names, s0, k),
        )
}

/// A whole pipeline pass over a room is consistent against some tick
/// stack: the caller of a colony-wide pass knows each room followed the
/// draw discipline of [`spec_room_work_ok`]; which stack it started from
/// is the concern of the per-room contract.
pub open spec fn spec_room_work_some(
    room: MineRoom,
    nodes: Seq<NodeWork>,
    names: Seq<(String, String)>,
    tasks: crate::tasks::Tasks,
    world: crate::world::World,
    has_pool: bool,
    energy: u32,
) -> bool {
    exists|s0: Seq<EntityId>|
        #[trigger] spec_room_work_ok(room, nodes, names, tasks, world, has_pool, energy, s0)
}

/// Without a pool the sizing amount is never consulted: a room pass that
/// is consistent under one amount is consistent under any other.
pub proof fn lemma_room_work_energy_irrelevant(
    room: MineRoom,
    nodes: Seq<NodeWork>,
    names: Seq<(String, String)>,
    tasks: crate::tasks::Tasks,
    world: crate::world::World,
    e1: u32,
    e2: u32,
    s0: Seq<EntityId>,
)
    requires
        spec_room_work_ok(room, nodes, names, tasks, world, false, e1, s0),
    ensures
        spec_room_work_ok(room, nodes, names, tasks, world, false, e2, s0),
{
    assert forall|k: int| 0 <= k < nodes.len() implies spec_node_work_ok(
        room,
        #[trigger] nodes[k],
        room.source_ids@[k],
        names[k].0,
        names[k].1,
        tasks,
        world,
        false,
        e2,
        spec_stack_before_node(tasks, world, room.source_ids@, names, s0, k),
    ) by {
        assert(spec_node_work_ok(
            room,
            nodes[k],
            room.source_ids@[k],
            names[k].0,
            names[k].1,
            tasks,
            world,
            false,
            e1,
            spec_stack_before_node(tasks, world, room.source_ids@, names, s0, k),
        ));
    }
}

impl MineRoom {
    /// Reads one node's planning facts out of the snapshot. An absent
    /// worker's position and capacity are placeholders; the planning only
    /// reads them for roles that were acquired, and acquired roles are
    /// live workers.
    fn gather_facts(
        &self,
        source_id: EntityId,
        harvester_name: &String,
        hauler_name: &String,
        world: &crate::world::World,
    ) -> (f: NodeFacts)
        requires
            world.wf(),
            world.spec_has_node(source_id),
        ensures
            f.source_id == source_id,
            f.source_pos == world.spec_node(source_id).pos,
            f.harvester_name == *harvester_name,
            f.hauler_name == *hauler_name,
            world.spec_has_worker(harvester_name@) ==> f.harvester_pos == world.spec_worker(
                harvester_name@,
            ).pos,
            world.spec_has_worker(hauler_name@) ==> f.hauler_pos == world.spec_worker(
                hauler_name@,
            ).pos && f.hauler_free_capacity == world.spec_worker(hauler_name@).free_capacity,
            f.pile matches Some(p) ==> exists|i: int|
                0 <= i < world.piles@.len() && (#[trigger] world.piles@[i]).id == p
                    && world.piles@[i].pos == f.harvester_pos,
            f.pile is None ==> !world.spec_has_pile_at(f.harvester_pos),
            f.drop_off == crate::energy_distributer::spec_preload(self.energy_drop_off, *world),
    {
        let source_pos = match world.node(source_id) {
            Some(nd) => nd.pos,
            None => vstd::pervasive::unreached(),
        };
        let harvester_pos = match world.worker(harvester_name) {
            Some(w) => w.pos,
            None => Pos { x: 0, y: 0 },
        };
        let (hauler_pos, hauler_free_capacity) = match world.worker(hauler_name) {
            Some(w) => (w.pos, w.free_capacity),
            None => (Pos { x: 0, y: 0 }, 0),
        };
        let pile = match world.first_pile_at(&harvester_pos) {
            Some(p) => Some(p.id),
            None => None,
        };
        let drop_off = self.energy_drop_off.preload(world);
        NodeFacts {
            source_id,
            source_pos,
            harvester_name: harvester_name.clone(),
            harvester_pos,
            hauler_name: hauler_name.clone(),
            hauler_pos,
            hauler_free_capacity,
            pile,
            drop_off,
        }
    }

    /// Drives the pipeline for one tick: for each owned node, in the
    /// fixed ascending-distance service order (this borrows the pipeline
    /// immutably, so the construction-time order cannot change, whatever
    /// the snapshot says of the drop-off), acquires the transporter and
    /// the extractor through the allocation layer (consuming the pool's
    /// per-tick cache) and plans the node's order chain. A node whose
    /// stored id no longer resolves is skipped whole with a reported
    /// error — a transient condition, retried next tick. The caller
    /// executes each entry's production orders and plan in this order.
    pub fn run(
        &self,
        hive: &mut crate::hive::Hive,
        world: &crate::world::World,
        names: &Vec<(String, String)>,
    ) -> (r: Vec<NodeWork>)
        requires
            world.wf(),
            old(hive).wf(),
            names@.len() == self.source_ids@.len(),
            old(hive).spec_has_spawn_room(self.spawn_room_name@) ==> old(hive).spec_spawn_energy(
                self.spawn_room_name@,
                false,
                *world,
            ) >= 100,
        ensures
            final(hive).wf(),
            final(hive).tasks == old(hive).tasks,
            final(hive).mine_rooms == old(hive).mine_rooms,
            final(hive).spawn_rooms@.len() == old(hive).spawn_rooms@.len(),
            forall|k: int|
                0 <= k < old(hive).spawn_rooms@.len() ==> (#[trigger] final(hive).spawn_rooms@[k]).0 == old(hive).spawn_rooms@[k].0
                    && final(hive).spawn_rooms@[k].1.room_name == old(hive).spawn_rooms@[k].1.room_name
                    && final(hive).spawn_rooms@[k].1.spawn_ids == old(hive).spawn_rooms@[k].1.spawn_ids,
            r@.len() == self.source_ids@.len(),
            spec_room_work_ok(
                *self,
                r@,
                names@,
                old(hive).tasks,
                *world,
                old(hive).spec_has_spawn_room(self.spawn_room_name@),
                old(hive).spec_spawn_energy(self.spawn_room_name@, false, *world),
                old(hive).spec_pool_stack(self.spawn_room_name@, *world),
            ),
    {
        let ghost pool_name = self.spawn_room_name@;
        let ghost has_pool = old(hive).spec_has_spawn_room(pool_name);
        let ghost pool_idx = old(hive).spec_spawn_room_idx(pool_name);
        let ghost s0 = old(hive).spec_pool_stack(pool_name, *world);
        let n = self.source_ids.len();
        let mut out: Vec<NodeWork> = Vec::new();
        let mut i: usize = 0;
        while i < n
            invariant
                world.wf(),
                hive.wf(),
                old(hive).wf(),
                n == self.source_ids@.len(),
                names@.len() == n,
                0 <= i <= n,
                out@.len() == i,
                pool_name == self.spawn_room_name@,
                has_pool == old(hive).spec_has_spawn_room(pool_name),
                pool_idx == old(hive).spec_spawn_room_idx(pool_name),
                s0 == old(hive).spec_pool_stack(pool_name, *world),
                hive.tasks == old(hive).tasks,
                hive.mine_rooms == old(hive).mine_rooms,
                hive.spawn_rooms@.len() == old(hive).spawn_rooms@.len(),
                forall|k: int|
                    0 <= k < old(hive).spawn_rooms@.len() ==> (#[trigger] hive.spawn_rooms@[k]).0
                        == old(hive).spawn_rooms@[k].0 && hive.spawn_rooms@[k].1.room_name == old(hive).spawn_rooms@[k].1.room_name
                        && hive.spawn_rooms@[k].1.spawn_ids == old(hive).spawn_rooms@[k].1.spawn_ids,
                has_pool ==> spec_cache_stack(
                    hive.spawn_rooms@[pool_idx].1.available_spawn_cache,
                    hive.spawn_rooms@[pool_idx].1.spawn_ids@,
                    *world,
                ) == spec_stack_before_node(
                    old(hive).tasks,
                    *world,
                    self.source_ids@,
                    names@,
                    s0,
                    i as int,
                ),
                old(hive).spec_has_spawn_room(self.spawn_room_name@) ==> old(hive).spec_spawn_energy(self.spawn_room_name@, false, *world) >= 100,
                forall|k: int|
                    0 <= k < i ==> spec_node_work_ok(
                        *self,
                        #[trigger] out@[k],
                        self.source_ids@[k],
                        names@[k].0,
                        names@[k].1,
                        old(hive).tasks,
                        *world,
                        has_pool,
                        old(hive).spec_spawn_energy(self.spawn_room_name@, false, *world),
                        spec_stack_before_node(
                            old(hive).tasks,
                            *world,
                            self.source_ids@,
                            names@,
                            s0,
                            k,
                        ),
                    ),
            decreases n - i,
        {
            let source_id = self.source_ids[i];
            let harvester_name = &names[i].0;
            let hauler_name = &names[i].1;
            let ghost s_before = spec_stack_before_node(
                old(hive).tasks,
                *world,
                self.source_ids@,
                names@,
                s0,
                i as int,
            );
            if world.node(source_id).is_none() {
                // the stored node no longer resolves: skip its whole unit
                // of work for this tick and report the absence
                let facts = NodeFacts {
                    source_id,
                    source_pos: Pos { x: 0, y: 0 },
                    harvester_name: harvester_name.clone(),
                    harvester_pos: Pos { x: 0, y: 0 },
                    hauler_name: hauler_name.clone(),
                    hauler_pos: Pos { x: 0, y: 0 },
                    hauler_free_capacity: 0,
                    pile: None,
                    drop_off: None,
                };
                out.push(
                    NodeWork {
                        source_id,
                        harvester_name: harvester_name.clone(),
                        hauler_name: hauler_name.clone(),
                        harvester_req: None,
                        hauler_req: None,
                        facts,
                        plan: PipelinePlan {
                            orders: Vec::new(),
                            terminal: Some(MineError::SourceGone),
                        },
                    },
                );
                proof {
                    assert(spec_stack_before_node(
                        old(hive).tasks,
                        *world,
                        self.source_ids@,
                        names@,
                        s0,
                        i as int + 1,
                    ) == s_before);
                }
                i = i + 1;
                continue ;
            }
            let ghost h0 = *hive;
            proof {
                crate::hive::lemma_spawn_room_presence(*old(hive), h0, pool_name);
                if has_pool {
                    crate::hive::lemma_same_spawn_room_name(*old(hive), h0, pool_name);
                }
            }
            let hauler_req = hive.get_creep(
                hauler_name,
                &self.spawn_room_name,
                false,
                crate::hive::BodyPolicy::HaulerPolicy,
                world,
            );
            let ghost h1 = *hive;
            proof {
                crate::hive::lemma_spawn_room_presence(*old(hive), h1, pool_name);
                if has_pool {
                    crate::hive::lemma_same_spawn_room_name(*old(hive), h1, pool_name);
                }
            }
            let harvester_req = hive.get_creep(
                harvester_name,
                &self.spawn_room_name,
                false,
                crate::hive::BodyPolicy::HarvesterPolicy,
                world,
            );
            let ghost h2 = *hive;
            proof {
                crate::hive::lemma_spawn_room_presence(*old(hive), h2, pool_name);
                if has_pool {
                    crate::hive::lemma_same_spawn_room_name(*old(hive), h2, pool_name);
                }
                assert(spec_stack_before_node(
                    old(hive).tasks,
                    *world,
                    self.source_ids@,
                    names@,
                    s0,
                    i as int + 1,
                ) == spec_stack_after_node(
                    old(hive).tasks,
                    *world,
                    self.source_ids@[i as int],
                    names@[i as int].0,
                    names@[i as int].1,
                    s_before,
                ));
            }
            let facts = self.gather_facts(source_id, harvester_name, hauler_name, world);
            let have_harvester = matches!(harvester_req, crate::hive::CreepRequest::UseExisting);
            let have_hauler = matches!(hauler_req, crate::hive::CreepRequest::UseExisting);
            let plan = self.process_source(have_harvester, have_hauler, &facts);
            out.push(
                NodeWork {
                    source_id,
                    harvester_name: harvester_name.clone(),
                    hauler_name: hauler_name.clone(),
                    harvester_req: Some(harvester_req),
                    hauler_req: Some(hauler_req),
                    facts,
                    plan,
                },
            );
            i = i + 1;
        }
        out
    }
}

fn outcome_success(out: &MineOutcome) -> (r: bool)
    ensures
        r == spec_outcome_success(*out),
{
    match out {
        MineOutcome::Single(c) => *c == ReturnCode::Okay,
        MineOutcome::Link(c1, c2) => *c1 == ReturnCode::Okay && *c2 == ReturnCode::Okay,
    }
}

/// Judges one node's tick from its plan and the outcomes the caller
/// gathered while executing the plan's orders front to back, stopping at
/// the first outcome that is not `Okay`: a failed order surfaces its
/// error; a fully successful chain still owes the plan's terminal error,
/// if any; otherwise the node's step succeeded.
pub fn node_outcome(plan: &PipelinePlan, outs: &Vec<MineOutcome>) -> (r: Result<(), MineError>)
    requires
        outs@.len() <= plan.orders@.len(),
        forall|k: int|
            0 <= k < outs@.len() ==> spec_outcome_matches(plan.orders@[k].kind, #[trigger] outs@[k]),
        forall|k: int| 0 <= k < outs@.len() - 1 ==> spec_outcome_success(#[trigger] outs@[k]),
        plan.orders@.len() > 0 ==> outs@.len() > 0,
        outs@.len() < plan.orders@.len() ==> !spec_outcome_success(outs@[outs@.len() - 1]),
    ensures
        r == ({
            let m = outs@.len();
            if m > 0 && !spec_outcome_success(outs@[m - 1]) {
                Result::<(), MineError>::Err(spec_order_error(plan.orders@[m - 1], outs@[m - 1]))
            } else {
                match plan.terminal {
                    Some(e) => Result::<(), MineError>::Err(e),
                    None => Result::<(), MineError>::Ok(()),
                }
            }
        }),
{
    let m = outs.len();
    if m > 0 {
        let last = &outs[m - 1];
        if !outcome_success(last) {
            let o = &plan.orders[m - 1];
            let e = match last {
                MineOutcome::Single(c) => MineError::UnexpectedOutcome { phase: o.phase, code: *c },
                MineOutcome::Link(c1, c2) => MineError::LinkFailed {
                    pull_code: *c1,
                    follow_code: *c2,
                },
            };
            return Err(e);
        }
    }
    match &plan.terminal {
        Some(e) => Err(*e),
        None => Ok(()),
    }
}

} // verus!
