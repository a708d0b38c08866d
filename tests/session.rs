use ajax_alarm::{optocoupler_level, RelayStatus};
use ajax_alarm::{
    Action, GetInputs, GetOutput, GetSystemTime, Phase, RelayActor, RelayError, Reply,
    SetOutput, UnregisterForStatus,
};

fn connected_session() -> (RelayActor, usize) {
    let mut s = RelayActor::new("10.0.0.7", 12345, 4, 4);
    s.started(0);
    let (id, _) = s.register_subscriber(77);
    s.connect_succeeded();
    (s, id)
}

fn published(actions: &[Action]) -> Vec<(Vec<usize>, Option<Vec<u32>>, bool)> {
    let mut out = Vec::new();
    for a in actions {
        if let Action::Publish { to, status } = a {
            out.push((to.clone(), status.inputs.clone(), status.connected));
        }
    }
    out
}

#[test]
fn first_push_always_broadcasts() {
    let (mut s, id) = connected_session();
    let actions = s.line_received("+OCCH_ALL:0,0,0,0", 100);
    assert_eq!(published(&actions), vec![(vec![id], Some(vec![0, 0, 0, 0]), true)]);
}

#[test]
fn unchanged_push_is_silent_then_change_broadcasts() {
    let (mut s, id) = connected_session();
    s.line_received("+OCCH_ALL:0,0,0,0", 100);
    let again = s.line_received("+OCCH_ALL:0,0,0,0", 1100);
    assert!(again.is_empty());
    let changed = s.line_received("+OCCH_ALL:0,1,0,0", 2100);
    assert_eq!(published(&changed), vec![(vec![id], Some(vec![0, 1, 0, 0]), true)]);
    assert_eq!(s.get_inputs(GetInputs).states, vec![0, 1, 0, 0]);
}

#[test]
fn push_of_wrong_length_is_discarded() {
    let (mut s, _) = connected_session();
    assert!(s.line_received("+OCCH_ALL:1,1,1", 100).is_empty());
    assert!(s.line_received("+OCCH_ALL:1,1,1,1,1", 100).is_empty());
    assert_eq!(s.get_inputs(GetInputs).states, vec![0, 0, 0, 0]);
    assert_eq!(s.get_inputs(GetInputs).states.len(), 4);
}

#[test]
fn malformed_push_is_discarded() {
    let (mut s, _) = connected_session();
    assert!(s.line_received("+OCCH_ALL:1,x,1,1", 100).is_empty());
    assert!(s.line_received("+OCCH_ALL:1,,1,1", 100).is_empty());
    assert_eq!(s.get_inputs(GetInputs).states, vec![0, 0, 0, 0]);
}

fn ticket_of(r: Result<ajax_alarm::Request, RelayError>) -> u64 {
    r.ok().expect("query should be issued").ticket
}

fn delivered(actions: &[Action]) -> Vec<(u64, u32)> {
    let mut out = Vec::new();
    for a in actions {
        if let Action::Deliver { ticket, reply: Reply::Output(v) } = a {
            out.push((*ticket, *v));
        }
    }
    out
}

#[test]
fn replies_correlate_by_key_under_interleaving() {
    let (mut s, _) = connected_session();
    let t1 = ticket_of(s.get_output(GetOutput { number: 1 }));
    let t2 = ticket_of(s.get_output(GetOutput { number: 2 }));
    let a = s.line_received("+STACH2=1", 10);
    let b = s.line_received("+STACH1=0", 20);
    assert_eq!(delivered(&a), vec![(t2, 1)]);
    assert_eq!(delivered(&b), vec![(t1, 0)]);
    assert_eq!(s.pending_count(), 0);
}

#[test]
fn replies_under_one_key_are_fifo() {
    let (mut s, _) = connected_session();
    let first = ticket_of(s.get_output(GetOutput { number: 1 }));
    let second = ticket_of(s.get_output(GetOutput { number: 1 }));
    assert_ne!(first, second);
    let a = s.line_received("+STACH1=0", 10);
    let b = s.line_received("+STACH1=1", 20);
    assert_eq!(delivered(&a), vec![(first, 0)]);
    assert_eq!(delivered(&b), vec![(second, 1)]);
}

#[test]
fn stale_reply_without_waiter_is_dropped() {
    let (mut s, _) = connected_session();
    let t = ticket_of(s.get_system_time(GetSystemTime));
    // The host's timer gave up on `t`; the waiter outcome is a timeout.
    assert!(matches!(ajax_alarm::settle(None), Err(RelayError::Timeout)));
    let late = s.line_received("+TIME:2021-03-04 05:06:07 4", 10_500);
    // The late reply drains the abandoned slot and nothing else is woken.
    assert_eq!(late.len(), 1);
    match &late[0] {
        Action::Deliver { ticket, reply: Reply::Time(tm) } => {
            assert_eq!(*ticket, t);
            assert_eq!(tm.date_time, "2021-03-04 05:06:07");
            assert_eq!(tm.day_of_week, 4);
        }
        _ => panic!("expected a delivery"),
    }
    let later = s.line_received("+TIME:2021-03-04 05:06:08 4", 11_000);
    assert!(later.is_empty());
}

#[test]
fn settle_passes_a_delivered_reply_through() {
    match ajax_alarm::settle(Some(Reply::Output(1))) {
        Ok(Reply::Output(v)) => assert_eq!(v, 1),
        _ => panic!("expected the reply"),
    }
}

#[test]
fn heartbeat_expiry_then_restart() {
    let (mut s, id) = connected_session();
    s.line_received("+OCCH_ALL:1,0,0,0", 1_000);
    assert!(s.heartbeat(11_000).is_empty());
    let expired = s.heartbeat(11_001);
    assert_eq!(published(&expired), vec![(vec![id], None, false)]);
    assert!(matches!(expired.last(), Some(Action::StopAfter(5000))));
    assert_eq!(s.phase(), Phase::DrainToStop);
    assert!(!s.get_inputs(GetInputs).connected);
    // Once bound to stop, further ticks do nothing.
    assert!(s.heartbeat(20_000).is_empty());
    // The host stops and restarts the session; the subscriber is still there.
    s.started(16_001);
    assert_eq!(s.phase(), Phase::Connecting);
    let up = s.connect_succeeded();
    match &up[0] {
        Action::Send(line) => assert_eq!(line, "AT+OCMOD=1,100"),
        _ => panic!("expected the push-enable command first"),
    }
    assert_eq!(published(&up), vec![(vec![id], Some(vec![0, 0, 0, 0]), true)]);
}

#[test]
fn restart_drops_pending_waiters() {
    let (mut s, _) = connected_session();
    ticket_of(s.get_output(GetOutput { number: 3 }));
    assert_eq!(s.pending_count(), 1);
    s.started(50);
    assert_eq!(s.pending_count(), 0);
    assert!(!s.is_linked());
}

#[test]
fn commands_fail_without_link() {
    let mut s = RelayActor::new("h", 1, 4, 4);
    assert!(matches!(s.get_output(GetOutput { number: 1 }), Err(RelayError::NotConnected)));
    assert!(matches!(s.set_output(SetOutput { number: 1, state: 1 }), Err(RelayError::NotConnected)));
    assert_eq!(s.pending_count(), 0);
}

#[test]
fn link_failures_ask_to_stop() {
    let mut s = RelayActor::new("h", 1, 4, 4);
    s.started(0);
    let a = s.connect_failed();
    assert!(matches!(a.as_slice(), [Action::Stop]));
    let (mut s2, _) = connected_session();
    let b = s2.protocol_desync();
    assert!(matches!(b.as_slice(), [Action::Stop]));
    assert!(matches!(s2.get_output(GetOutput { number: 1 }), Err(RelayError::NotConnected)));
}

#[test]
fn registration_sends_current_status_and_ids_are_fresh() {
    let (mut s, id) = connected_session();
    assert_eq!(id, 77);
    s.line_received("+OCCH_ALL:0,0,1,0", 10);
    let (again, status) = s.register_subscriber(77);
    assert_ne!(again, 77);
    assert_eq!(again, 0);
    assert_eq!(status.inputs, Some(vec![0, 0, 1, 0]));
    assert!(status.connected);
    s.unregister_for_status(UnregisterForStatus(77));
    assert_eq!(s.subscribers(), vec![0]);
    let (third, _) = s.register_subscriber(77);
    assert_ne!(third, 77);
    assert_eq!(third, 1);
    s.unregister_for_status(UnregisterForStatus(12345));
    assert_eq!(s.subscribers(), vec![0, 1]);
}

#[test]
fn random_registration_yields_distinct_ids() {
    let mut s = RelayActor::new("h", 1, 4, 4);
    let (a, _) = s.register_for_status();
    s.unregister_for_status(UnregisterForStatus(a));
    let (b, _) = s.register_for_status();
    assert_ne!(a, b);
    assert_eq!(s.subscribers(), vec![b]);
}

#[test]
fn snapshot_reports_configuration() {
    let s = RelayActor::new("h", 1, 6, 2);
    let snap = s.get_inputs(GetInputs);
    assert_eq!(snap.number, 6);
    assert_eq!(snap.states, vec![0; 6]);
    assert!(!snap.connected);
}

#[test]
fn optocoupler_follows_any_active_input() {
    assert_eq!(optocoupler_level(&RelayStatus { inputs: Some(vec![0, 0, 1, 0]), connected: true }), 1);
    assert_eq!(optocoupler_level(&RelayStatus { inputs: Some(vec![0, 0, 0, 0]), connected: true }), 0);
    assert_eq!(optocoupler_level(&RelayStatus { inputs: Some(vec![2, 0, 0, 0]), connected: true }), 0);
    assert_eq!(optocoupler_level(&RelayStatus { inputs: None, connected: false }), 0);
}

#[test]
fn short_time_line_wakes_no_waiter() {
    let (mut s, _) = connected_session();
    ticket_of(s.get_system_time(GetSystemTime));
    assert!(s.line_received("+TIME:ab 1", 10).is_empty());
    assert_eq!(s.pending_count(), 1);
}

#[test]
fn default_session_uses_default_configuration() {
    let s = RelayActor::default();
    assert_eq!(s.port, 12345);
    assert_eq!(s.get_inputs(GetInputs).states, vec![0, 0, 0, 0]);
    assert_eq!(s.phase(), Phase::Connecting);
}

#[test]
fn unregistered_id_is_gone() {
    let (mut s, id) = connected_session();
    s.unregister_for_status(UnregisterForStatus(id));
    assert!(s.subscribers().is_empty());
    let actions = s.line_received("+OCCH_ALL:1,1,1,1", 10);
    assert_eq!(published(&actions), vec![(vec![], Some(vec![1, 1, 1, 1]), true)]);
}
