//! Tests of colony founding, the per-tick drive, persistence
//! reconciliation, id generation and log formatting.

use hivemind::codes::ReturnCode;
use hivemind::console;
use hivemind::energy_distributer::EnergyDropOff;
use hivemind::hive::CreepRequest;
use hivemind::hive::Hive;
use hivemind::id_generator::IdGenerator;
use hivemind::memory;
use hivemind::memory::Memory;
use hivemind::mine_room::MineError;
use hivemind::mine_room::MinePhase;
use hivemind::mine_room::Role;
use hivemind::spawn_room::StructureInfo;
use hivemind::spawn_room::StructureKind;
use hivemind::world::FacilityInfo;
use hivemind::world::NodeInfo;
use hivemind::world::PileInfo;
use hivemind::world::Pos;
use hivemind::world::RoomInfo;
use hivemind::world::WorkerInfo;
use hivemind::world::World;

fn pos(x: u32, y: u32) -> Pos {
    Pos { x, y }
}

fn founding_world(tick: u32) -> World {
    World {
        tick,
        workers: Vec::new(),
        facilities: vec![
            FacilityInfo { id: 1, pos: pos(25, 25), busy: false },
            FacilityInfo { id: 2, pos: pos(26, 25), busy: false },
        ],
        rooms: vec![
            RoomInfo { name: String::from("W1N1"), energy_available: 300, energy_capacity: 550 },
        ],
        nodes: vec![
            NodeInfo { id: 40, pos: pos(30, 25) },
            NodeInfo { id: 41, pos: pos(10, 25) },
        ],
        piles: Vec::new(),
    }
}

fn founding_nodes() -> Vec<NodeInfo> {
    vec![NodeInfo { id: 40, pos: Pos { x: 30, y: 25 } }, NodeInfo { id: 41, pos: Pos { x: 10, y: 25 } }]
}

fn founding_structures() -> Vec<StructureInfo> {
    vec![
        StructureInfo { id: 1, kind: StructureKind::SpawnKind },
        StructureInfo { id: 2, kind: StructureKind::SpawnKind },
    ]
}

#[test]
fn founding_takes_one_idle_facility_as_drop_off() {
    let world = founding_world(1);
    let hive = Hive::new(
        String::from("W1N1"),
        &founding_structures(),
        &founding_nodes(),
        &world,
    );
    assert_eq!(hive.spawn_rooms.len(), 1);
    assert_eq!(hive.mine_rooms.len(), 1);
    assert_eq!(hive.tasks.task_list.len(), 0);
    // one facility was consumed from this tick's cache for the drop-off
    let taken = match hive.mine_rooms[0].1.energy_drop_off {
        EnergyDropOff::Spawn(id) => id,
        _ => panic!("drop-off is not a facility"),
    };
    assert!(taken == 1 || taken == 2);
    // nodes are ordered by distance to the drop-off (ids 1 and 2 sit at
    // x 25 and 26): node 40 at x 30 is closer than node 41 at x 10
    assert_eq!(hive.mine_rooms[0].1.source_ids, vec![40u128, 41]);
}

#[test]
fn tick_drive_plans_each_node_in_order() {
    let world = founding_world(1);
    let mut hive = Hive::new(
        String::from("W1N1"),
        &founding_structures(),
        &founding_nodes(),
        &world,
    );
    let names = vec![
        vec![
            (String::from("harvester:40"), String::from("hauler:40")),
            (String::from("harvester:41"), String::from("hauler:41")),
        ],
    ];
    let work = hive.run(&world, &names);
    assert_eq!(work.len(), 1);
    assert_eq!(work[0].room_name, "W1N1");
    assert_eq!(work[0].nodes.len(), 2);
    // founding consumed one of the two idle facilities; the first node's
    // transporter gets the last one, every later role is refused
    let first = &work[0].nodes[0];
    assert_eq!(first.source_id, 40);
    // the pool's stack was [2, 1]; founding popped facility 1, so the
    // transporter's production order draws facility 2
    assert!(matches!(first.hauler_req, Some(CreepRequest::DoSpawn { facility: 2, .. })));
    assert!(matches!(first.harvester_req, Some(CreepRequest::Refused(_))));
    assert_eq!(first.plan.orders.len(), 0);
    assert_eq!(first.plan.terminal, Some(MineError::Allocation(Role::Harvester)));
    let second = &work[0].nodes[1];
    assert_eq!(second.source_id, 41);
    assert!(matches!(second.hauler_req, Some(CreepRequest::Refused(_))));
}

#[test]
fn tick_drive_plans_extraction_for_live_pair() {
    let mut world = founding_world(1);
    let mut hive = Hive::new(
        String::from("W1N1"),
        &founding_structures(),
        &founding_nodes(),
        &world,
    );
    // both roles for the near node are live: extractor at the node,
    // loaded transporter next to the drop-off's facility
    world.workers = vec![
        WorkerInfo {
            name: String::from("harvester:40"),
            pos: pos(30, 26),
            spawning: false,
            free_capacity: 0,
        },
        WorkerInfo {
            name: String::from("hauler:40"),
            pos: pos(25, 26),
            spawning: false,
            free_capacity: 0,
        },
    ];
    let names = vec![
        vec![
            (String::from("harvester:40"), String::from("hauler:40")),
            (String::from("harvester:41"), String::from("hauler:41")),
        ],
    ];
    let work = hive.run(&world, &names);
    let node = &work[0].nodes[0];
    assert!(matches!(node.harvester_req, Some(CreepRequest::UseExisting)));
    assert!(matches!(node.hauler_req, Some(CreepRequest::UseExisting)));
    assert_eq!(node.plan.orders.len(), 2);
    assert_eq!(node.plan.orders[0].phase, MinePhase::Harvesting);
    assert_eq!(node.plan.orders[1].phase, MinePhase::DropOffTransfer);
    assert!(node.plan.terminal.is_none());
}

#[test]
fn memory_reconcile_accepts_only_matching_version() {
    let world = founding_world(1);
    let mem = Memory::new(
        String::from("W1N1"),
        &founding_structures(),
        &founding_nodes(),
        &world,
    );
    assert_eq!(mem.version, (0, 0, 0, 0));
    let accepted = memory::reconcile(Some(mem));
    assert!(accepted.is_some());
    let world2 = founding_world(1);
    let mut stale = Memory::new(
        String::from("W1N1"),
        &founding_structures(),
        &founding_nodes(),
        &world2,
    );
    stale.version = (0, 0, 0, 1);
    assert!(memory::reconcile(Some(stale)).is_none());
    assert!(memory::reconcile(None).is_none());
}

#[test]
fn id_generator_counts_up_from_zero() {
    let mut gen = IdGenerator::new();
    assert_eq!(gen.generate(), 0);
    assert_eq!(gen.generate(), 1);
    assert_eq!(gen.generate(), 2);
    assert_eq!(gen.next_id, 3);
}

#[test]
fn positions_measure_walking_distance() {
    let a = pos(5, 5);
    assert_eq!(a.range_to(&pos(5, 5)), 0);
    assert_eq!(a.range_to(&pos(8, 6)), 3);
    assert_eq!(a.range_to(&pos(2, 9)), 4);
    assert!(a.is_near_to(&pos(6, 6)));
    assert!(!a.is_near_to(&pos(7, 5)));
}

#[test]
fn world_lookups_find_entries() {
    let world = founding_world(2);
    assert!(world.facility(1).is_some());
    assert!(world.facility(9).is_none());
    assert!(world.room(&String::from("W1N1")).is_some());
    assert!(world.room(&String::from("W9N9")).is_none());
    assert_eq!(world.node(41).unwrap().pos, pos(10, 25));
}

#[test]
fn pile_lookup_takes_first_at_position() {
    let mut world = founding_world(2);
    world.piles = vec![
        PileInfo { id: 70, pos: pos(3, 3) },
        PileInfo { id: 71, pos: pos(30, 26) },
        PileInfo { id: 72, pos: pos(30, 26) },
    ];
    let found = world.first_pile_at(&pos(30, 26)).unwrap();
    assert_eq!(found.id, 71);
    assert!(world.first_pile_at(&pos(1, 1)).is_none());
}

#[test]
fn spawn_failure_code_is_reported() {
    assert_eq!(
        Hive::spawn_result(ReturnCode::Busy),
        hivemind::hive::GetCreepError::SpawningFailed(ReturnCode::Busy),
    );
}

#[test]
fn log_lines_carry_severity_and_color() {
    assert_eq!(
        console::colorize("hello", "red"),
        "<span style=\"color:red\">hello</span>",
    );
    assert_eq!(console::info("all well"), "[INFO] all well");
    assert_eq!(
        console::warn("low energy"),
        "[<span style=\"color:orange\">WARN</span>] low energy",
    );
    assert_eq!(
        console::error("no path"),
        "[<span style=\"color:red\">ERROR</span>] no path",
    );
    assert_eq!(
        console::debug("tick 5"),
        "[<span style=\"color:dodgerBlue\">DEBUG</span>] tick 5",
    );
}

#[test]
fn vanished_node_is_skipped_for_the_tick() {
    let world = founding_world(1);
    let mut hive = Hive::new(
        String::from("W1N1"),
        &founding_structures(),
        &founding_nodes(),
        &world,
    );
    // node 40 is gone from the next snapshot: its unit of work is skipped
    // whole — nothing acquired, nothing issued, the absence reported —
    // while the other node is still serviced
    let mut later = founding_world(2);
    later.nodes = vec![NodeInfo { id: 41, pos: pos(10, 25) }];
    let names = vec![
        vec![
            (String::from("harvester:40"), String::from("hauler:40")),
            (String::from("harvester:41"), String::from("hauler:41")),
        ],
    ];
    let work = hive.run(&later, &names);
    let gone = &work[0].nodes[0];
    assert_eq!(gone.source_id, 40);
    assert!(gone.harvester_req.is_none());
    assert!(gone.hauler_req.is_none());
    assert_eq!(gone.plan.orders.len(), 0);
    assert_eq!(gone.plan.terminal, Some(MineError::SourceGone));
    let kept = &work[0].nodes[1];
    assert_eq!(kept.source_id, 41);
    assert!(kept.harvester_req.is_some());
}

#[test]
fn service_order_is_fixed_even_if_the_destination_moves() {
    let world = founding_world(1);
    let mut hive = Hive::new(
        String::from("W1N1"),
        &founding_structures(),
        &founding_nodes(),
        &world,
    );
    assert_eq!(hive.mine_rooms[0].1.source_ids, vec![40u128, 41]);
    // the drop-off's facility has since moved next to node 41; the
    // construction-time order is kept, not re-derived
    let mut later = founding_world(2);
    later.facilities = vec![
        FacilityInfo { id: 1, pos: pos(11, 25), busy: false },
        FacilityInfo { id: 2, pos: pos(12, 25), busy: false },
    ];
    let names = vec![
        vec![
            (String::from("harvester:40"), String::from("hauler:40")),
            (String::from("harvester:41"), String::from("hauler:41")),
        ],
    ];
    let work = hive.run(&later, &names);
    assert_eq!(work[0].nodes[0].source_id, 40);
    assert_eq!(work[0].nodes[1].source_id, 41);
    assert_eq!(hive.mine_rooms[0].1.source_ids, vec![40u128, 41]);
}
