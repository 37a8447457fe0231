//! Tests of the task interpreter and its registry.

use std::collections::VecDeque;

use hivemind::codes::Direction;
use hivemind::codes::ReturnCode;
use hivemind::tasks::LeafEvents;
use hivemind::tasks::LeafInfo;
use hivemind::tasks::SweepInput;
use hivemind::tasks::Task;
use hivemind::tasks::TaskReturn;
use hivemind::tasks::Tasks;
use hivemind::tasks::events_match;

fn ok() -> LeafEvents {
    LeafEvents::Single(ReturnCode::Okay)
}

#[test]
fn move_ok_completes() {
    let mut t = Task::Move(Direction::Top);
    assert_eq!(t.run(&ok()), TaskReturn::Complete);
}

#[test]
fn move_failure_surfaces_code() {
    let mut t = Task::Move(Direction::Left);
    let r = t.run(&LeafEvents::Single(ReturnCode::Tired));
    assert_eq!(r, TaskReturn::Failed(ReturnCode::Tired));
}

#[test]
fn harvest_ok_completes() {
    let mut t = Task::Harvest(42);
    assert_eq!(t.run(&ok()), TaskReturn::Complete);
}

#[test]
fn tow_target_missing_is_invalid_target() {
    let mut t = Task::Tow(String::from("mule"), Direction::Right);
    let r = t.run(&LeafEvents::TowMissing);
    assert_eq!(r, TaskReturn::Failed(ReturnCode::InvalidTarget));
}

#[test]
fn tow_link_failure_surfaces_first_code() {
    let mut t = Task::Tow(String::from("mule"), Direction::Right);
    let r = t.run(&LeafEvents::TowLink(ReturnCode::NotInRange, ReturnCode::Okay));
    assert_eq!(r, TaskReturn::Failed(ReturnCode::NotInRange));
    let mut t2 = Task::Tow(String::from("mule"), Direction::Right);
    let r2 = t2.run(&LeafEvents::TowLink(ReturnCode::Okay, ReturnCode::Busy));
    assert_eq!(r2, TaskReturn::Failed(ReturnCode::Busy));
}

#[test]
fn tow_link_and_move_completes() {
    let mut t = Task::Tow(String::from("mule"), Direction::Right);
    let r = t.run(&LeafEvents::TowMoved(ReturnCode::Okay));
    assert_eq!(r, TaskReturn::Complete);
}

#[test]
fn continuous_rearms_completion_as_progress() {
    // P3: a continuous harvest whose order always succeeds reports
    // ProgressMade on every step and the tree never changes.
    let mut t = Task::Continuous(Box::new(Task::Harvest(7)));
    for _ in 0..5 {
        assert_eq!(t.run(&ok()), TaskReturn::ProgressMade);
        match &t {
            Task::Continuous(inner) => match **inner {
                Task::Harvest(id) => assert_eq!(id, 7),
                _ => panic!("inner task changed"),
            },
            _ => panic!("wrapper changed"),
        }
    }
}

#[test]
fn continuous_passes_errors_through() {
    let mut t = Task::Continuous(Box::new(Task::Move(Direction::Top)));
    let r = t.run(&LeafEvents::Single(ReturnCode::NoPath));
    assert_eq!(r, TaskReturn::Failed(ReturnCode::NoPath));
}

#[test]
fn perpetual_always_reports_progress() {
    let mut t = Task::Perpetual(Box::new(Task::Move(Direction::Top)));
    assert_eq!(t.run(&LeafEvents::Single(ReturnCode::NoPath)), TaskReturn::ProgressMade);
    assert_eq!(t.run(&ok()), TaskReturn::ProgressMade);
}

#[test]
fn multi_step_drains_in_order() {
    // P4: [A, B] with both completing in one step: ProgressMade after the
    // first step (A popped, B remains), Complete after the second.
    let mut q: VecDeque<Box<Task>> = VecDeque::new();
    q.push_back(Box::new(Task::Move(Direction::Top)));
    q.push_back(Box::new(Task::Move(Direction::Bottom)));
    let mut t = Task::MultiStep(q);
    assert_eq!(t.run(&ok()), TaskReturn::ProgressMade);
    match &t {
        Task::MultiStep(rest) => {
            assert_eq!(rest.len(), 1);
            match &**rest.front().unwrap() {
                Task::Move(d) => assert_eq!(*d, Direction::Bottom),
                _ => panic!("front is not the second task"),
            }
        },
        _ => panic!("wrapper changed"),
    }
    assert_eq!(t.run(&ok()), TaskReturn::Complete);
    match &t {
        Task::MultiStep(rest) => assert_eq!(rest.len(), 0),
        _ => panic!("wrapper changed"),
    }
}

#[test]
fn empty_multi_step_completes_immediately() {
    // P4: a MultiStep constructed over an empty queue reports Complete.
    let mut t = Task::MultiStep(VecDeque::new());
    assert_eq!(t.run(&ok()), TaskReturn::Complete);
}

#[test]
fn multi_step_keeps_failing_front() {
    let mut q: VecDeque<Box<Task>> = VecDeque::new();
    q.push_back(Box::new(Task::Move(Direction::Top)));
    q.push_back(Box::new(Task::Move(Direction::Bottom)));
    let mut t = Task::MultiStep(q);
    let r = t.run(&LeafEvents::Single(ReturnCode::Tired));
    assert_eq!(r, TaskReturn::Failed(ReturnCode::Tired));
    match &t {
        Task::MultiStep(rest) => assert_eq!(rest.len(), 2),
        _ => panic!("wrapper changed"),
    }
}

#[test]
fn active_leaf_descends_wrappers_and_queues() {
    let mut q: VecDeque<Box<Task>> = VecDeque::new();
    q.push_back(Box::new(Task::Harvest(9)));
    let t = Task::Continuous(Box::new(Task::MultiStep(q)));
    match t.active_leaf() {
        LeafInfo::HarvestLeaf(id) => assert_eq!(id, 9),
        _ => panic!("wrong leaf"),
    }
    let empty = Task::MultiStep(VecDeque::new());
    assert!(matches!(empty.active_leaf(), LeafInfo::NoLeaf));
}

#[test]
fn events_match_rejects_wrong_shapes() {
    let leaf = Task::Tow(String::from("mule"), Direction::Top).active_leaf();
    assert!(!events_match(&leaf, &LeafEvents::Single(ReturnCode::Okay)));
    assert!(!events_match(&leaf, &LeafEvents::TowLink(ReturnCode::Okay, ReturnCode::Okay)));
    assert!(events_match(&leaf, &LeafEvents::TowMissing));
    assert!(events_match(&leaf, &LeafEvents::TowMoved(ReturnCode::Okay)));
    let mleaf = Task::Move(Direction::Top).active_leaf();
    assert!(events_match(&mleaf, &LeafEvents::Single(ReturnCode::Okay)));
    assert!(!events_match(&mleaf, &LeafEvents::TowMissing));
}

#[test]
fn registry_add_and_has_task() {
    let mut reg = Tasks::new();
    assert!(!reg.has_task("alice"));
    reg.add_task(String::from("alice"), Task::Move(Direction::Top));
    assert!(reg.has_task("alice"));
    assert!(!reg.has_task("bob"));
    // replacing keeps a single entry
    reg.add_task(String::from("alice"), Task::Harvest(3));
    assert_eq!(reg.task_list.len(), 1);
}

#[test]
fn run_task_absent_worker_fails_not_found() {
    let mut t = Task::Move(Direction::Top);
    let r = Tasks::run_task(false, &mut t, &ok());
    assert_eq!(r, TaskReturn::Failed(ReturnCode::NotFound));
}

#[test]
fn sweep_evicts_absent_worker_once() {
    // P7: an entry whose worker is gone from the snapshot is evicted by
    // the next sweep; the sweep itself reports nothing for it.
    let mut reg = Tasks::new();
    reg.add_task(String::from("ghost"), Task::Continuous(Box::new(Task::Harvest(1))));
    reg.run(&vec![SweepInput { present: false, events: ok() }]);
    assert!(!reg.has_task("ghost"));
    assert_eq!(reg.task_list.len(), 0);
    // a second sweep over the now-empty registry is a no-op
    reg.run(&Vec::new());
    assert_eq!(reg.task_list.len(), 0);
}

#[test]
fn sweep_keeps_continuous_tasks() {
    // P3 at registry level: a succeeding continuous task survives every
    // sweep; a completing plain task is evicted.
    let mut reg = Tasks::new();
    reg.add_task(String::from("alice"), Task::Continuous(Box::new(Task::Harvest(7))));
    for _ in 0..4 {
        reg.run(&vec![SweepInput { present: true, events: ok() }]);
        assert!(reg.has_task("alice"));
    }
    reg.add_task(String::from("bob"), Task::Move(Direction::Top));
    reg.run(
        &vec![
            SweepInput { present: true, events: ok() },
            SweepInput { present: true, events: ok() },
        ],
    );
    assert!(reg.has_task("alice"));
    assert!(!reg.has_task("bob"));
}

#[test]
fn sweep_keeps_failed_tasks_for_retry() {
    let mut reg = Tasks::new();
    reg.add_task(String::from("carl"), Task::Move(Direction::Top));
    reg.run(&vec![SweepInput { present: true, events: LeafEvents::Single(ReturnCode::NoPath) }]);
    // an error is not fatal to the registration: the entry stays and is
    // retried next tick against fresh world state
    assert!(reg.has_task("carl"));
    // completion, by contrast, evicts
    reg.run(&vec![SweepInput { present: true, events: ok() }]);
    assert!(!reg.has_task("carl"));
}
