use io_engine::monitor::{MonitorEvent, ReactorMonitor, REACTOR_HEARTBEAT_TIMEOUT};

/// One second of the monitor: heartbeats are sent, those of the reactors in
/// `blocked` do not run, the interval ends.
fn second(m: &mut ReactorMonitor, blocked: &[usize], owed: &mut Vec<u64>) -> Vec<MonitorEvent> {
    for i in m.send_heartbeats() {
        owed[i] += 1;
    }
    for i in 0..owed.len() {
        if !blocked.contains(&i) {
            while owed[i] > 0 {
                m.heartbeat(i);
                owed[i] -= 1;
            }
        }
    }
    m.check()
}

#[test]
fn default_timeout() {
    let m = ReactorMonitor::new(&vec![0, 1], None);
    assert_eq!(m.timeout, REACTOR_HEARTBEAT_TIMEOUT);
    assert_eq!(m.timeout, 3);
    assert_eq!(ReactorMonitor::new(&vec![0], Some(7)).timeout, 7);
}

#[test]
fn healthy_reactors_report_nothing() {
    let mut m = ReactorMonitor::new(&vec![0, 1, 2], Some(3));
    let mut owed = vec![0; 3];
    for _ in 0..5 {
        assert!(second(&mut m, &[], &mut owed).is_empty());
    }
    assert_eq!(m.tick, 5);
}

#[test]
fn freeze_detection() {
    let mut m = ReactorMonitor::new(&vec![0, 1, 2], Some(3));
    let mut owed = vec![0; 3];
    assert!(second(&mut m, &[2], &mut owed).is_empty());
    assert!(second(&mut m, &[2], &mut owed).is_empty());
    assert_eq!(second(&mut m, &[2], &mut owed), vec![MonitorEvent::Frozen(2)]);
    assert!(m.records[2].frozen);
    // Still blocked: frozen reactors are not sent more heartbeats.
    assert!(second(&mut m, &[2], &mut owed).is_empty());
    assert_eq!(owed[2], 3);
    // Unblocked: the owed heartbeats run, then it recovers.
    assert_eq!(second(&mut m, &[], &mut owed), vec![MonitorEvent::Recovered(2)]);
    assert!(!m.records[2].frozen);
    assert!(second(&mut m, &[], &mut owed).is_empty());
}

#[test]
fn partial_drain_keeps_frozen() {
    let mut m = ReactorMonitor::new(&vec![5], Some(2));
    let mut owed = vec![0; 1];
    assert!(second(&mut m, &[0], &mut owed).is_empty());
    assert_eq!(second(&mut m, &[0], &mut owed), vec![MonitorEvent::Frozen(5)]);
    m.send_heartbeats();
    m.heartbeat(0);
    assert!(m.check().is_empty());
    assert!(m.records[0].frozen);
    m.send_heartbeats();
    m.heartbeat(0);
    assert_eq!(m.check(), vec![MonitorEvent::Recovered(5)]);
}
