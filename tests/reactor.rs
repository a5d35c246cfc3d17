use io_engine::error::CoreError;
use io_engine::fleet::{can_op, launch_result, spawn_at_result, LaunchPlan, Reactors, ThreadOp, INIT_THREAD};
use io_engine::reactor::{PrimaryPoll, Reactor, ReactorState};
use nix::errno::Errno;

fn ids(r: &Reactor) -> Vec<u64> {
    r.threads.iter().map(|t| t.id).collect()
}

#[test]
fn new_reactor_starts_in_init() {
    let r = Reactor::new(4);
    assert_eq!(r.get_state(), ReactorState::Init);
    assert_eq!(r.core_id(), 4);
    assert_eq!(r.tid(), 0);
    assert!(r.threads.is_empty());
}

#[test]
fn state_transitions() {
    let mut r = Reactor::new(0);
    r.developer_delayed();
    assert_eq!(r.get_state(), ReactorState::Delayed);
    r.running();
    assert_eq!(r.get_state(), ReactorState::Running);
    r.shutdown();
    assert_eq!(r.get_state(), ReactorState::Shutdown);
    r.running();
    assert_eq!(r.get_state(), ReactorState::Shutdown);
    r.developer_delayed();
    assert_eq!(r.get_state(), ReactorState::Shutdown);
}

#[test]
fn state_names() {
    assert_eq!(ReactorState::Init.as_str(), "Init");
    assert_eq!(ReactorState::Running.as_str(), "Running");
    assert_eq!(ReactorState::Shutdown.as_str(), "Shutdown");
    assert_eq!(ReactorState::Delayed.as_str(), "Delayed");
}

#[test]
fn start_records_thread_and_state() {
    let mut r = Reactor::new(0);
    r.start(false);
    assert_eq!(r.get_state(), ReactorState::Running);
    assert_ne!(r.tid(), 0);
    let mut d = Reactor::new(1);
    d.start_on(42, true);
    assert_eq!(d.get_state(), ReactorState::Delayed);
    assert_eq!(d.tid(), 42);
}

#[test]
fn cross_core_spawn() {
    let mut fleet = Reactors::init(&vec![0, 1]);
    fleet.reactors[1].running();
    fleet.reactors[1].send_future(11);
    assert_eq!(fleet.reactors[1].poll_once(), vec![11]);
    fleet.reactors[1].send_future(12);
    fleet.reactors[1].send_future(13);
    assert_eq!(fleet.reactors[1].poll_once(), vec![12, 13]);
    assert!(fleet.reactors[1].poll_once().is_empty());
    assert!(fleet.reactors[0].poll_once().is_empty());
}

#[test]
fn poll_once_runs_local_tasks_before_received_ones() {
    let mut r = Reactor::new(0);
    r.spawn_local(1);
    r.send_future(2);
    r.spawn_local(3);
    assert_eq!(r.poll_once(), vec![1, 3, 2]);
    assert!(r.poll_once().is_empty());
}

#[test]
fn init_schedules_bootstrap_thread_on_primary() {
    let mut fleet = Reactors::init(&vec![3, 5]);
    assert_eq!(fleet.master().core_id(), 3);
    fleet.reactors[0].poll_once();
    assert_eq!(ids(&fleet.reactors[0]), vec![INIT_THREAD]);
    assert!(fleet.reactors[1].threads.is_empty());
}

#[test]
fn schedule_picks_first_eligible_reactor() {
    let mut fleet = Reactors::init(&vec![0, 1, 2]);
    assert_eq!(fleet.schedule(7, &vec![2, 1]), 0);
    assert_eq!(fleet.schedule(8, &vec![9]), 1);
    for r in fleet.reactors.iter_mut() {
        r.poll_once();
    }
    assert_eq!(ids(&fleet.reactors[0]), vec![INIT_THREAD]);
    assert_eq!(ids(&fleet.reactors[1]), vec![7]);
    assert!(fleet.reactors[2].threads.is_empty());
}

#[test]
fn dispatch_hook() {
    let mut fleet = Reactors::init(&vec![0, 1]);
    assert!(can_op(ThreadOp::New));
    assert!(!can_op(ThreadOp::Resched));
    assert_eq!(fleet.do_op(4, &vec![1], ThreadOp::New), 0);
    assert_eq!(fleet.do_op(5, &vec![1], ThreadOp::Resched), -1);
    assert_eq!(fleet.do_op(6, &vec![], ThreadOp::New), 1);
    fleet.reactors[1].poll_once();
    assert_eq!(ids(&fleet.reactors[1]), vec![4]);
}

#[test]
fn lookup() {
    let fleet = Reactors::init(&vec![2, 4]);
    assert_eq!(fleet.get_by_core(4).map(|r| r.core_id()), Some(4));
    assert!(fleet.get_by_core(3).is_none());
    assert_eq!(fleet.current(4).core_id(), 4);
    assert!(fleet.is_master(2));
    assert!(!fleet.is_master(4));
    let cores: Vec<u32> = fleet.iter().iter().map(|r| r.core_id()).collect();
    assert_eq!(cores, vec![2, 4]);
}

#[test]
fn launch_decisions() {
    let fleet = Reactors::init(&vec![0, 1]);
    assert!(matches!(fleet.launch_remote(0), Ok(LaunchPlan::NothingToDo)));
    assert!(matches!(fleet.launch_remote(1), Ok(LaunchPlan::Launch)));
    match fleet.launch_remote(7) {
        Err(CoreError::ReactorConfigureFailed { source }) => assert_eq!(source, Errno::ENOSYS),
        other => panic!("unexpected {:?}", other),
    }
}

#[test]
fn launch_outcome_carries_errno() {
    assert!(launch_result(0).is_ok());
    match launch_result(1) {
        Err(CoreError::ReactorConfigureFailed { source }) => assert_eq!(source, Errno::EPERM),
        other => panic!("unexpected {:?}", other),
    }
}

#[test]
fn exited_threads_are_destroyed() {
    let mut fleet = Reactors::init(&vec![0]);
    fleet.schedule(1, &vec![0]);
    fleet.schedule(2, &vec![0]);
    let r = &mut fleet.reactors[0];
    r.running();
    r.poll_once();
    assert_eq!(ids(r), vec![INIT_THREAD, 1, 2]);
    r.threads[1].exited = true;
    let mut destroyed = Vec::new();
    let mut ran = Vec::new();
    r.spawn_local(30);
    assert!(r.poll_reactor(&mut destroyed, &mut ran));
    assert_eq!(destroyed, vec![1]);
    assert_eq!(ran, vec![30]);
    assert_eq!(ids(r), vec![INIT_THREAD, 2]);
    assert_eq!(r.threads[0].polls, 1);
    r.shutdown();
    r.send_future(31);
    assert!(!r.poll_reactor(&mut destroyed, &mut ran));
    assert_eq!(destroyed, vec![1]);
    assert_eq!(ran, vec![30]);
}

#[test]
fn poll_times_polls_threads_repeatedly() {
    let mut fleet = Reactors::init(&vec![0]);
    let r = &mut fleet.reactors[0];
    r.poll_once();
    r.send_future(9);
    assert_eq!(r.poll_times(3), vec![9]);
    assert_eq!(r.threads[0].polls, 3);
    assert!(r.poll_times(0).is_empty());
    assert_eq!(r.threads[0].polls, 3);
}

#[test]
fn primary_poll_lifecycle() {
    let mut fleet = Reactors::init(&vec![0]);
    let r = &mut fleet.reactors[0];
    let mut destroyed = Vec::new();
    let mut ran = Vec::new();
    r.send_future(5);
    assert_eq!(r.poll_primary(false, &mut destroyed, &mut ran), PrimaryPoll::Pending);
    assert_eq!(r.get_state(), ReactorState::Running);
    assert!(ran.is_empty());
    assert_eq!(r.poll_primary(false, &mut destroyed, &mut ran), PrimaryPoll::Pending);
    assert_eq!(ids(r), vec![INIT_THREAD]);
    assert_eq!(ran, vec![5]);
    assert_eq!(r.poll_primary(false, &mut destroyed, &mut ran), PrimaryPoll::Pending);
    assert_eq!(r.threads[0].polls, 3);
    r.shutdown();
    assert_eq!(r.poll_primary(false, &mut destroyed, &mut ran), PrimaryPoll::Ready);
    assert_eq!(destroyed, vec![INIT_THREAD]);
    assert!(r.threads.is_empty());
    assert_eq!(r.get_state(), ReactorState::Shutdown);
}

#[test]
fn spawn_at_outcome() {
    assert!(spawn_at_result(0).is_ok());
    match spawn_at_result(-12) {
        Err(CoreError::NotSupported { source }) => assert_eq!(source, Errno::UnknownErrno),
        other => panic!("unexpected {:?}", other),
    }
}

#[test]
fn delayed_primary_polls_once() {
    let mut r = Reactor::new(0);
    let mut destroyed = Vec::new();
    let mut ran = Vec::new();
    r.poll_primary(true, &mut destroyed, &mut ran);
    assert_eq!(r.get_state(), ReactorState::Delayed);
    r.spawn_local(8);
    assert_eq!(r.poll_primary(true, &mut destroyed, &mut ran), PrimaryPoll::Pending);
    assert_eq!(ran, vec![8]);
    assert_eq!(r.get_state(), ReactorState::Delayed);
}
