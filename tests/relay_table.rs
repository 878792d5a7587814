use zperf::relay::{RelayHandler, SessionTable};

#[test]
fn three_sessions_one_message() {
    let mut table = SessionTable::new();
    let a = table.new_session(100);
    let b = table.new_session(200);
    let c = table.new_session(300);
    assert_eq!(table.len(), 3);
    let targets = a.handle_message(&table);
    let peers: Vec<u64> = targets.iter().map(|t| t.1).collect();
    assert_eq!(peers, vec![200, 300]);
    assert_eq!(targets, vec![(b.index, 200), (c.index, 300)]);
}

#[test]
fn fan_out_excludes_sender_only() {
    let mut table = SessionTable::new();
    let handlers: Vec<RelayHandler> = (0..4u64).map(|p| table.new_session(p)).collect();
    for h in &handlers {
        let targets = h.handle_message(&table);
        assert_eq!(targets.len(), 3);
        assert!(targets.iter().all(|t| t.0 != h.index));
    }
}

#[test]
fn closed_session_leaves_table() {
    let mut table = SessionTable::new();
    let a = table.new_session(1);
    let b = table.new_session(2);
    let c = table.new_session(3);
    assert_eq!(b.closed(&mut table), Some(2));
    assert_eq!(b.closed(&mut table), None);
    assert_eq!(table.len(), 2);
    assert_eq!(a.handle_message(&table), vec![(c.index, 3)]);
    let d = table.new_session(4);
    assert!(d.index != a.index && d.index != c.index);
    assert_eq!(table.deregister(d.index), Some(4));
}

#[test]
fn lone_session_has_no_targets() {
    let mut table = SessionTable::new();
    let a = table.new_session(9);
    assert!(a.handle_message(&table).is_empty());
    assert_eq!(RelayHandler::new(a.index), a);
}
