use io_engine::nexus::{fault_nexus_child, ChildState, Nexus, NexusChild, Reason};
use io_engine::nexus_channel::{BlockDeviceHandle, DrEvent, NexusChannel, NexusChannelInner};

fn child(name: &str, state: ChildState) -> NexusChild {
    NexusChild { name: format!("child-{}", name), state, device: Some(name.to_string()) }
}

fn nexus(children: Vec<NexusChild>) -> Nexus {
    Nexus { name: "nexus-0".to_string(), children }
}

fn handle(name: &str) -> BlockDeviceHandle {
    BlockDeviceHandle { device_name: name.to_string() }
}

fn names(v: &[BlockDeviceHandle]) -> Vec<String> {
    v.iter().map(|h| h.device_name.clone()).collect()
}

fn all_ok(n: &Nexus) -> Vec<bool> {
    vec![true; n.children.len()]
}

#[test]
fn round_robin_select() {
    let mut ch = NexusChannelInner {
        writers: vec![handle("A"), handle("B"), handle("C")],
        readers: vec![handle("A"), handle("B"), handle("C")],
        previous: 0,
        fail_fast: 0,
    };
    let got: Vec<Option<usize>> = (0..6).map(|_| ch.child_select()).collect();
    assert_eq!(got, vec![Some(1), Some(2), Some(0), Some(1), Some(2), Some(0)]);
}

#[test]
fn select_without_readers_is_none() {
    let mut ch = NexusChannelInner { writers: vec![], readers: vec![], previous: 0, fail_fast: 0 };
    assert_eq!(ch.child_select(), None);
    assert_eq!(ch.child_select(), None);
}

#[test]
fn select_single_reader_always_zero() {
    let mut ch =
        NexusChannelInner { writers: vec![handle("A")], readers: vec![handle("A")], previous: 0, fail_fast: 0 };
    for _ in 0..4 {
        assert_eq!(ch.child_select(), Some(0));
    }
}

#[test]
fn fault_during_submission() {
    let mut n = nexus(vec![
        child("A", ChildState::Open),
        child("B", ChildState::Open),
        child("C", ChildState::Open),
    ]);
    let ok = all_ok(&n);
    let mut ch = NexusChannel::new(&mut n, &ok);
    assert!(ch.inner_mut().fault_device(&mut n, &"B".to_string()));
    assert_eq!(n.children[1].state, ChildState::Faulted(Reason::IoError));
    ch.inner_mut().refresh(&mut n, &ok);
    assert_eq!(names(&ch.inner().readers), vec!["A", "C"]);
    assert_eq!(names(&ch.inner().writers), vec!["A", "C"]);
}

#[test]
fn fault_is_idempotent() {
    let mut n = nexus(vec![child("A", ChildState::Open), child("B", ChildState::Open)]);
    let ok = all_ok(&n);
    let mut ch = NexusChannel::new(&mut n, &ok);
    assert!(ch.inner_mut().fault_device(&mut n, &"A".to_string()));
    assert!(!ch.inner_mut().fault_device(&mut n, &"A".to_string()));
    assert_eq!(n.children[0].state, ChildState::Faulted(Reason::IoError));
    assert_eq!(n.children[1].state, ChildState::Open);
}

#[test]
fn fault_skips_children_without_device_and_unknown_names() {
    let mut n = nexus(vec![
        NexusChild { name: "x".to_string(), state: ChildState::Open, device: None },
        child("B", ChildState::Rebuilding),
    ]);
    assert!(!fault_nexus_child(&mut n, &"B".to_string()));
    assert!(!fault_nexus_child(&mut n, &"Z".to_string()));
    assert_eq!(n.children[0].state, ChildState::Open);
    assert_eq!(n.children[1].state, ChildState::Rebuilding);
}

#[test]
fn remove_then_refresh() {
    let mut n = nexus(vec![child("A", ChildState::Open), child("B", ChildState::Open)]);
    let ok = all_ok(&n);
    let mut ch = NexusChannel::new(&mut n, &ok);
    assert!(ch.inner_mut().remove_device(&mut n, &"A".to_string()));
    assert_eq!(names(&ch.inner().readers), vec!["B"]);
    assert_eq!(names(&ch.inner().writers), vec!["B"]);
    assert_eq!(n.children[0].state, ChildState::Faulted(Reason::IoError));
    ch.inner_mut().refresh(&mut n, &ok);
    assert_eq!(names(&ch.inner().readers), vec!["B"]);
    assert_eq!(names(&ch.inner().writers), vec!["B"]);
}

#[test]
fn removed_device_is_never_selected() {
    let mut n = nexus(vec![
        child("A", ChildState::Open),
        child("B", ChildState::Open),
        child("C", ChildState::Open),
    ]);
    let ok = all_ok(&n);
    let mut ch = NexusChannel::new(&mut n, &ok);
    ch.inner_mut().previous = 2;
    ch.inner_mut().remove_device(&mut n, &"B".to_string());
    assert_eq!(ch.inner().previous, 0);
    for _ in 0..7 {
        let i = ch.inner_mut().child_select().unwrap();
        assert_ne!(ch.inner().readers[i].device_name, "B");
    }
}

#[test]
fn rebuild_tee() {
    let mut n = nexus(vec![child("A", ChildState::Open), child("B", ChildState::Rebuilding)]);
    let ok = all_ok(&n);
    let mut ch = NexusChannel::new(&mut n, &ok);
    assert_eq!(names(&ch.inner().readers), vec!["A"]);
    assert_eq!(names(&ch.inner().writers), vec!["A"]);
    ch.inner_mut().refresh(&mut n, &ok);
    assert_eq!(names(&ch.inner().readers), vec!["A"]);
    assert_eq!(names(&ch.inner().writers), vec!["A", "B"]);
}

#[test]
fn no_tee_without_previous_readers() {
    let mut n = nexus(vec![child("A", ChildState::Rebuilding)]);
    let ok = all_ok(&n);
    let mut ch = NexusChannelInner { writers: vec![], readers: vec![], previous: 0, fail_fast: 0 };
    ch.refresh(&mut n, &ok);
    assert!(ch.readers.is_empty());
    assert!(ch.writers.is_empty());
}

#[test]
fn refresh_faults_children_whose_handles_fail() {
    let mut n = nexus(vec![
        child("A", ChildState::Open),
        child("B", ChildState::Open),
        child("C", ChildState::Rebuilding),
        NexusChild { name: "d".to_string(), state: ChildState::Open, device: None },
        child("E", ChildState::Closed),
    ]);
    let mut ch = NexusChannelInner {
        writers: vec![handle("A")],
        readers: vec![handle("A")],
        previous: 0,
        fail_fast: 5,
    };
    ch.refresh(&mut n, &vec![true, false, false, true, true]);
    assert_eq!(names(&ch.readers), vec!["A"]);
    assert_eq!(names(&ch.writers), vec!["A"]);
    assert_eq!(ch.fail_fast, 5);
    assert_eq!(n.children[0].state, ChildState::Open);
    assert_eq!(n.children[1].state, ChildState::Faulted(Reason::CantOpen));
    assert_eq!(n.children[2].state, ChildState::Faulted(Reason::CantOpen));
    assert_eq!(n.children[3].state, ChildState::Faulted(Reason::CantOpen));
    assert_eq!(n.children[4].state, ChildState::Closed);
}

#[test]
fn new_skips_children_whose_handles_fail() {
    let mut n = nexus(vec![child("A", ChildState::Open), child("B", ChildState::Open)]);
    let ch = NexusChannel::new(&mut n, &vec![false, true]);
    assert_eq!(names(&ch.inner().readers), vec!["B"]);
    assert_eq!(n.children[0].state, ChildState::Faulted(Reason::CantOpen));
    assert_eq!(ch.inner().previous, 0);
    assert_eq!(ch.inner().fail_fast, 0);
}

#[test]
fn refresh_twice_is_stable() {
    let mut n = nexus(vec![
        child("A", ChildState::Open),
        child("B", ChildState::Rebuilding),
        child("C", ChildState::Open),
    ]);
    let ok = vec![true, true, false];
    let mut ch = NexusChannelInner { writers: vec![handle("A")], readers: vec![handle("A")], previous: 0, fail_fast: 0 };
    ch.refresh(&mut n, &ok);
    let (r1, w1) = (names(&ch.readers), names(&ch.writers));
    ch.refresh(&mut n, &ok);
    assert_eq!(names(&ch.readers), r1);
    assert_eq!(names(&ch.writers), w1);
    assert_eq!(w1, vec!["A", "B"]);
}

#[test]
fn clear_releases_all_handles() {
    let mut n = nexus(vec![child("A", ChildState::Open), child("B", ChildState::Open)]);
    let ok = all_ok(&n);
    let ch = NexusChannel::new(&mut n, &ok);
    assert_eq!(ch.clear(), 4);
}

#[test]
fn reconfigure_events() {
    let mut n = nexus(vec![child("A", ChildState::Open), child("B", ChildState::Open)]);
    let ok = all_ok(&n);
    let mut ch = NexusChannel::new(&mut n, &ok);
    assert!(ch.inner_mut().reconfigure(&mut n, DrEvent::ChildFault, &"A".to_string(), &ok));
    assert_eq!(names(&ch.inner().readers), vec!["B"]);
    n.children[0].state = ChildState::Rebuilding;
    assert!(!ch.inner_mut().reconfigure(&mut n, DrEvent::ChildRebuild, &"A".to_string(), &ok));
    assert_eq!(names(&ch.inner().writers), vec!["B", "A"]);
    assert!(!ch.inner_mut().reconfigure(&mut n, DrEvent::ChildOffline, &"A".to_string(), &ok));
    assert_eq!(names(&ch.inner().readers), vec!["B"]);
    assert!(ch.inner_mut().reconfigure(&mut n, DrEvent::ChildRemove, &"B".to_string(), &ok));
    assert!(ch.inner().readers.is_empty());
    assert_eq!(names(&ch.inner().writers), vec!["A"]);
}
