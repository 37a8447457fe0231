//! Tests of the facility pool, the allocation layer, the destination
//! resolver, and the extraction pipeline.

use hivemind::codes::Part;
use hivemind::codes::ReturnCode;
use hivemind::energy_distributer::EnergyDropOff;
use hivemind::energy_distributer::EnergyDropOffLoaded;
use hivemind::hive::BodyPolicy;
use hivemind::hive::CreepRequest;
use hivemind::hive::GetCreepError;
use hivemind::hive::Hive;
use hivemind::mine_room::MineError;
use hivemind::mine_room::MineOrderKind;
use hivemind::mine_room::MineOutcome;
use hivemind::mine_room::MinePhase;
use hivemind::mine_room::MineRoom;
use hivemind::mine_room::NodeFacts;
use hivemind::mine_room::Role;
use hivemind::mine_room::node_outcome;
use hivemind::spawn_room::SpawnRoom;
use hivemind::spawn_room::StructureInfo;
use hivemind::spawn_room::StructureKind;
use hivemind::tasks::Task;
use hivemind::codes::Direction;
use hivemind::world::FacilityInfo;
use hivemind::world::NodeInfo;
use hivemind::world::PileInfo;
use hivemind::world::Pos;
use hivemind::world::RoomInfo;
use hivemind::world::WorkerInfo;
use hivemind::world::World;

fn pos(x: u32, y: u32) -> Pos {
    Pos { x, y }
}

fn empty_world(tick: u32) -> World {
    World {
        tick,
        workers: Vec::new(),
        facilities: Vec::new(),
        rooms: Vec::new(),
        nodes: Vec::new(),
        piles: Vec::new(),
    }
}

fn spawn_structures(ids: &[u128]) -> Vec<StructureInfo> {
    ids.iter().map(|id| StructureInfo { id: *id, kind: StructureKind::SpawnKind }).collect()
}

fn idle_facility(id: u128, p: Pos) -> FacilityInfo {
    FacilityInfo { id, pos: p, busy: false }
}

#[test]
fn pool_allocates_each_idle_facility_exactly_once_per_tick() {
    // P1: a pool with 3 idle facilities hands out 3 distinct facilities
    // within one tick, then nothing; the next tick starts over.
    let mut pool = SpawnRoom::new(String::from("W1N1"), &spawn_structures(&[1, 2, 3]), 5);
    let mut world = empty_world(5);
    world.facilities = vec![
        idle_facility(1, pos(10, 10)),
        idle_facility(2, pos(11, 10)),
        idle_facility(3, pos(12, 10)),
    ];
    let a = pool.available_spawn(&world).expect("first allocation");
    let b = pool.available_spawn(&world).expect("second allocation");
    let c = pool.available_spawn(&world).expect("third allocation");
    assert_ne!(a, b);
    assert_ne!(a, c);
    assert_ne!(b, c);
    assert!([1u128, 2, 3].contains(&a));
    assert!([1u128, 2, 3].contains(&b));
    assert!([1u128, 2, 3].contains(&c));
    assert!(pool.available_spawn(&world).is_none());
    // advancing the tick invalidates the cache: up to 3 again
    world.tick = 6;
    assert!(pool.available_spawn(&world).is_some());
    assert!(pool.available_spawn(&world).is_some());
    assert!(pool.available_spawn(&world).is_some());
    assert!(pool.available_spawn(&world).is_none());
}

#[test]
fn pool_skips_busy_and_vanished_facilities() {
    let mut pool = SpawnRoom::new(String::from("W1N1"), &spawn_structures(&[1, 2, 3]), 9);
    let mut world = empty_world(9);
    world.facilities = vec![
        idle_facility(1, pos(10, 10)),
        FacilityInfo { id: 2, pos: pos(11, 10), busy: true },
        // facility 3 is not in the snapshot at all
    ];
    assert_eq!(pool.available_spawn(&world), Some(1));
    assert!(pool.available_spawn(&world).is_none());
}

#[test]
fn pool_scan_keeps_only_matching_structures() {
    let structures = vec![
        StructureInfo { id: 1, kind: StructureKind::SpawnKind },
        StructureInfo { id: 2, kind: StructureKind::ExtensionKind },
        StructureInfo { id: 3, kind: StructureKind::OtherKind },
        StructureInfo { id: 4, kind: StructureKind::SpawnKind },
    ];
    let pool = SpawnRoom::new(String::from("W1N1"), &structures, 0);
    // each match is prepended, so storage order is reverse scan order
    assert_eq!(pool.get_spawns(), vec![4u128, 1]);
    assert_eq!(pool.get_extensions(), vec![2u128]);
}

#[test]
fn pool_energy_reads_room_figures() {
    let pool = SpawnRoom::new(String::from("W1N1"), &spawn_structures(&[1]), 0);
    let mut world = empty_world(0);
    world.rooms = vec![
        RoomInfo { name: String::from("W1N1"), energy_available: 300, energy_capacity: 550 },
    ];
    assert_eq!(pool.available_energy(&world), 300);
    assert_eq!(pool.max_energy(&world), 550);
    let other = empty_world(0);
    assert_eq!(pool.available_energy(&other), 0);
    assert_eq!(pool.max_energy(&other), 0);
}

fn hive_with_pool(room: &str, spawn_ids: &[u128]) -> Hive {
    Hive {
        tasks: hivemind::tasks::Tasks::new(),
        mine_rooms: Vec::new(),
        spawn_rooms: vec![
            (String::from(room), SpawnRoom::new(String::from(room), &spawn_structures(spawn_ids), 0)),
        ],
    }
}

#[test]
fn busy_name_is_never_allocated() {
    // P2: a name registered in the task registry reports CreepBusy,
    // whatever the pool or the world look like.
    let mut hive = hive_with_pool("W1N1", &[1]);
    hive.tasks.add_task(String::from("digger"), Task::Move(Direction::Top));
    let mut world = empty_world(3);
    world.facilities = vec![idle_facility(1, pos(10, 10))];
    world.workers = vec![
        WorkerInfo { name: String::from("digger"), pos: pos(1, 1), spawning: false, free_capacity: 0 },
    ];
    let r = hive.get_creep(
        &String::from("digger"),
        &String::from("W1N1"),
        false,
        BodyPolicy::HaulerPolicy,
        &world,
    );
    assert!(matches!(r, CreepRequest::Refused(GetCreepError::CreepBusy)));
}

#[test]
fn existing_live_worker_is_handed_out() {
    let mut hive = hive_with_pool("W1N1", &[1]);
    let mut world = empty_world(3);
    world.workers = vec![
        WorkerInfo { name: String::from("digger"), pos: pos(1, 1), spawning: false, free_capacity: 0 },
    ];
    let r = hive.get_creep(
        &String::from("digger"),
        &String::from("W1N1"),
        false,
        BodyPolicy::HaulerPolicy,
        &world,
    );
    assert!(matches!(r, CreepRequest::UseExisting));
}

#[test]
fn worker_mid_production_is_not_usable() {
    let mut hive = hive_with_pool("W1N1", &[1]);
    let mut world = empty_world(3);
    world.workers = vec![
        WorkerInfo { name: String::from("digger"), pos: pos(1, 1), spawning: true, free_capacity: 0 },
    ];
    let r = hive.get_creep(
        &String::from("digger"),
        &String::from("W1N1"),
        false,
        BodyPolicy::HaulerPolicy,
        &world,
    );
    assert!(matches!(r, CreepRequest::Refused(GetCreepError::SpawningInProgress)));
}

#[test]
fn no_idle_facility_refuses_allocation() {
    let mut hive = hive_with_pool("W1N1", &[1]);
    let mut world = empty_world(3);
    world.facilities = vec![FacilityInfo { id: 1, pos: pos(10, 10), busy: true }];
    let r = hive.get_creep(
        &String::from("digger"),
        &String::from("W1N1"),
        false,
        BodyPolicy::HaulerPolicy,
        &world,
    );
    assert!(matches!(r, CreepRequest::Refused(GetCreepError::NoSpawnAvailable)));
    // an unknown pool location refuses the same way
    let r2 = hive.get_creep(
        &String::from("digger"),
        &String::from("nowhere"),
        false,
        BodyPolicy::HaulerPolicy,
        &world,
    );
    assert!(matches!(r2, CreepRequest::Refused(GetCreepError::NoSpawnAvailable)));
}

#[test]
fn production_order_sized_by_urgency() {
    let mut world = empty_world(3);
    world.facilities = vec![idle_facility(1, pos(10, 10)), idle_facility(2, pos(11, 10))];
    world.rooms = vec![
        RoomInfo { name: String::from("W1N1"), energy_available: 300, energy_capacity: 550 },
    ];
    // urgent: only what is on hand (300): 1 + (300-100)/100 = 3 work parts
    let mut hive = hive_with_pool("W1N1", &[1, 2]);
    let r = hive.get_creep(
        &String::from("digger"),
        &String::from("W1N1"),
        true,
        BodyPolicy::HarvesterPolicy,
        &world,
    );
    match r {
        CreepRequest::DoSpawn { body, .. } => {
            assert_eq!(body.len(), 3);
            assert!(body.iter().all(|p| *p == Part::Work));
        },
        _ => panic!("expected a production order"),
    }
    // not urgent: the full capacity (550): 1 + 4 = 5 work parts
    let r2 = hive.get_creep(
        &String::from("digger"),
        &String::from("W1N1"),
        false,
        BodyPolicy::HarvesterPolicy,
        &world,
    );
    match r2 {
        CreepRequest::DoSpawn { body, .. } => assert_eq!(body.len(), 5),
        _ => panic!("expected a production order"),
    }
    // the two orders drew two distinct facilities from one tick's cache
    let r3 = hive.get_creep(
        &String::from("digger"),
        &String::from("W1N1"),
        false,
        BodyPolicy::HaulerPolicy,
        &world,
    );
    assert!(matches!(r3, CreepRequest::Refused(GetCreepError::NoSpawnAvailable)));
}

#[test]
fn spawn_result_maps_codes() {
    assert_eq!(Hive::spawn_result(ReturnCode::Okay), GetCreepError::SpawningInProgress);
    assert_eq!(
        Hive::spawn_result(ReturnCode::NotEnough),
        GetCreepError::SpawningFailed(ReturnCode::NotEnough),
    );
}

#[test]
fn harvester_body_is_capped() {
    // a full node's regeneration yield over its cycle calls for at most
    // 5 work parts; resource beyond that is not spent
    let b = MineRoom::get_harvester_body(100);
    assert_eq!(b, vec![Part::Work]);
    let b2 = MineRoom::get_harvester_body(250);
    assert_eq!(b2.len(), 2);
    let b3 = MineRoom::get_harvester_body(10_000);
    assert_eq!(b3.len(), 5);
    assert!(b3.iter().all(|p| *p == Part::Work));
}

#[test]
fn hauler_body_is_fixed() {
    assert_eq!(
        MineRoom::get_hauler_body(999),
        vec![Part::Move, Part::Carry, Part::Move, Part::Carry],
    );
}

#[test]
fn pipeline_orders_nodes_by_distance() {
    // P5: nodes at distances [5, 1, 3] are serviced as [1, 3, 5].
    let drop_off = EnergyDropOffLoaded::Spawn(99, pos(0, 0));
    let sources = vec![
        NodeInfo { id: 10, pos: pos(5, 0) },
        NodeInfo { id: 11, pos: pos(1, 0) },
        NodeInfo { id: 12, pos: pos(0, 3) },
    ];
    let room = MineRoom::new(String::from("W1N1"), String::from("W1N1"), drop_off, &sources);
    assert_eq!(room.source_ids, vec![11u128, 12, 10]);
    assert!(matches!(room.energy_drop_off, EnergyDropOff::Spawn(99)));
}

#[test]
fn destination_round_trip_references_same_entity() {
    // P6: compressing a resolved destination and re-resolving it yields
    // the same underlying entity, or fails cleanly when it is gone.
    let mut world = empty_world(1);
    world.facilities = vec![idle_facility(7, pos(4, 4))];
    world.workers = vec![
        WorkerInfo { name: String::from("mule"), pos: pos(2, 2), spawning: false, free_capacity: 10 },
    ];
    let loaded = EnergyDropOffLoaded::Spawn(7, pos(4, 4));
    match loaded.compress().preload(&world) {
        Some(EnergyDropOffLoaded::Spawn(id, p)) => {
            assert_eq!(id, 7);
            assert_eq!(p, pos(4, 4));
        },
        _ => panic!("facility did not resolve"),
    }
    let creep_loaded = EnergyDropOffLoaded::Creep(String::from("mule"), pos(2, 2));
    match creep_loaded.compress().preload(&world) {
        Some(EnergyDropOffLoaded::Creep(name, _)) => assert_eq!(name, "mule"),
        _ => panic!("worker did not resolve"),
    }
    // the entity vanished: resolution fails cleanly, never substituting
    let gone = EnergyDropOffLoaded::Spawn(8, pos(9, 9));
    assert!(gone.compress().preload(&world).is_none());
}

#[test]
fn accept_energy_judges_transfer_outcome() {
    let d = EnergyDropOffLoaded::Spawn(7, pos(4, 4));
    assert_eq!(d.accept_energy(ReturnCode::Okay), Ok(ReturnCode::Okay));
    assert_eq!(d.accept_energy(ReturnCode::Full), Err(ReturnCode::Full));
}

fn facts_base() -> NodeFacts {
    NodeFacts {
        source_id: 50,
        source_pos: pos(20, 20),
        harvester_name: String::from("digger"),
        harvester_pos: pos(10, 10),
        hauler_name: String::from("mule"),
        hauler_pos: pos(5, 5),
        hauler_free_capacity: 40,
        pile: None,
        drop_off: None,
    }
}

fn mine_room_for_tests() -> MineRoom {
    MineRoom {
        room_name: String::from("W1N1"),
        spawn_room_name: String::from("W1N1"),
        energy_drop_off: EnergyDropOff::Spawn(99),
        source_ids: vec![50],
    }
}

#[test]
fn towing_approaches_then_links_then_walks() {
    let room = mine_room_for_tests();
    // far apart: the transporter first walks to the extractor
    let far = facts_base();
    let p = room.tow_to_source(&far);
    assert_eq!(p.orders.len(), 1);
    assert_eq!(p.orders[0].phase, MinePhase::ApproachHarvester);
    // adjacent: link, then walk toward the node
    let mut near = facts_base();
    near.hauler_pos = pos(10, 11);
    let p2 = room.tow_to_source(&near);
    assert_eq!(p2.orders.len(), 2);
    assert_eq!(p2.orders[0].phase, MinePhase::LinkTow);
    assert_eq!(p2.orders[1].phase, MinePhase::ApproachNode);
    // adjacent to the node as well: link, then the final drag
    let mut at_node = facts_base();
    at_node.hauler_pos = pos(20, 21);
    at_node.harvester_pos = pos(20, 22);
    at_node.source_pos = pos(20, 20);
    let p3 = room.tow_to_source(&at_node);
    assert_eq!(p3.orders.len(), 2);
    assert_eq!(p3.orders[0].phase, MinePhase::LinkTow);
    assert_eq!(p3.orders[1].phase, MinePhase::DragToNode);
    assert!(matches!(&p3.orders[1].kind, MineOrderKind::MovePulledBy(n) if n == "digger"));
}

#[test]
fn hauling_picks_up_or_delivers() {
    let room = mine_room_for_tests();
    // free capacity and adjacent, with a pile: pick it up
    let mut f = facts_base();
    f.hauler_pos = pos(10, 11);
    f.pile = Some(77);
    let p = room.haul_energy(&f);
    assert_eq!(p.orders.len(), 1);
    assert!(matches!(p.orders[0].kind, MineOrderKind::PickupPile(77)));
    assert!(p.terminal.is_none());
    // free capacity, adjacent, but nothing dropped: a reported error
    let mut f2 = facts_base();
    f2.hauler_pos = pos(10, 11);
    let p2 = room.haul_energy(&f2);
    assert_eq!(p2.orders.len(), 0);
    assert_eq!(p2.terminal, Some(MineError::NoEnergyPile));
    // loaded: deliver to the resolved drop-off, walking there first
    let mut f3 = facts_base();
    f3.hauler_free_capacity = 0;
    f3.drop_off = Some(EnergyDropOffLoaded::Spawn(99, pos(0, 0)));
    let p3 = room.haul_energy(&f3);
    assert_eq!(p3.orders.len(), 1);
    assert_eq!(p3.orders[0].phase, MinePhase::ApproachDropOff);
    // loaded and adjacent to the drop-off: transfer
    let mut f4 = facts_base();
    f4.hauler_free_capacity = 0;
    f4.hauler_pos = pos(0, 1);
    f4.drop_off = Some(EnergyDropOffLoaded::Spawn(99, pos(0, 0)));
    let p4 = room.haul_energy(&f4);
    assert_eq!(p4.orders[0].phase, MinePhase::DropOffTransfer);
    // loaded but the drop-off no longer resolves: a reported error
    let mut f5 = facts_base();
    f5.hauler_free_capacity = 0;
    let p5 = room.haul_energy(&f5);
    assert_eq!(p5.terminal, Some(MineError::DropOffUnresolved));
}

#[test]
fn node_step_chains_extraction_and_hauling() {
    let room = mine_room_for_tests();
    // extractor at the node, transporter ready to pick up
    let mut f = facts_base();
    f.harvester_pos = pos(20, 21);
    f.hauler_pos = pos(20, 22);
    f.pile = Some(77);
    let p = room.process_source(true, true, &f);
    assert_eq!(p.orders.len(), 2);
    assert_eq!(p.orders[0].phase, MinePhase::Harvesting);
    assert_eq!(p.orders[1].phase, MinePhase::PickupEnergy);
    // missing extractor: the node is skipped whole, nothing is issued
    let p2 = room.process_source(false, true, &f);
    assert_eq!(p2.orders.len(), 0);
    assert_eq!(p2.terminal, Some(MineError::Allocation(Role::Harvester)));
    // missing transporter: likewise skipped whole, even with the
    // extractor standing at the node
    let p3 = room.process_source(true, false, &f);
    assert_eq!(p3.orders.len(), 0);
    assert_eq!(p3.terminal, Some(MineError::Allocation(Role::Hauler)));
}

#[test]
fn node_outcome_aborts_at_first_failure() {
    let room = mine_room_for_tests();
    let far = facts_base();
    let p = room.tow_to_source(&far);
    let verdict = node_outcome(&p, &vec![MineOutcome::Single(ReturnCode::NoPath)]);
    assert_eq!(
        verdict,
        Err(MineError::UnexpectedOutcome { phase: MinePhase::ApproachHarvester, code: ReturnCode::NoPath }),
    );
    let ok = node_outcome(&p, &vec![MineOutcome::Single(ReturnCode::Okay)]);
    assert_eq!(ok, Ok(()));
}

#[test]
fn node_outcome_reports_both_link_codes() {
    let room = mine_room_for_tests();
    let mut near = facts_base();
    near.hauler_pos = pos(10, 11);
    let p = room.tow_to_source(&near);
    let verdict = node_outcome(
        &p,
        &vec![MineOutcome::Link(ReturnCode::Okay, ReturnCode::InvalidTarget)],
    );
    assert_eq!(
        verdict,
        Err(MineError::LinkFailed { pull_code: ReturnCode::Okay, follow_code: ReturnCode::InvalidTarget }),
    );
}

#[test]
fn node_outcome_owes_terminal_error() {
    let room = mine_room_for_tests();
    let mut f = facts_base();
    f.hauler_pos = pos(10, 11);
    let p = room.haul_energy(&f);
    assert_eq!(node_outcome(&p, &Vec::new()), Err(MineError::NoEnergyPile));
}
