use ajax_alarm::protocol::{
    custom_add, custom_clear, custom_query, daily_add, daily_clear, daily_query, enable_push,
    output_query, output_set, time_query, time_set,
};
use ajax_alarm::{
    compute_mask, parse_frame, ClearOutputDailySchedule, CustomEvent, DailyEvent, Frame,
    GetOutputCustomSchedule, GetOutputDailySchedule, PendingTable, RelayActor, Reply, ReplyKey,
    SetOutputCustomSchedule, SetOutputDailySchedule, SetSystemTime, SubscriberRegistry,
    SystemTime,
};

#[test]
fn command_texts() {
    assert_eq!(enable_push(), "AT+OCMOD=1,100");
    assert_eq!(time_query(), "AT+TIME=?");
    let t = SystemTime { date_time: "2021-01-02 03:04:05".to_string(), day_of_week: 6 };
    assert_eq!(time_set(&t), "AT+TIME=2021-01-02 03:04:05 6");
    assert_eq!(output_query(3), "AT+STACH3=?");
    assert_eq!(output_query(12), "AT+STACH12=?");
    assert_eq!(output_set(2, 1), "AT+STACH2=1");
    assert_eq!(output_set(105, 0), "AT+STACH105=0");
    assert_eq!(daily_query(1), "AT+TIMESW=1,1?");
    let d = DailyEvent { time: "08:30:00".to_string(), state: 1 };
    assert_eq!(daily_add(1, &d), "AT+TIMESW=1,1,08:30:00 1");
    assert_eq!(daily_clear(4), "AT+TIMESW=4,0");
    assert_eq!(custom_query(2), "AT+TIMESW=2,3?");
    let c = CustomEvent { date_time: "2022-05-06 07:08:09".to_string(), state: 0 };
    assert_eq!(custom_add(2, &c), "AT+TIMESW=2,3,2022-05-06 07:08:09 0");
    assert_eq!(custom_clear(2), "AT+TIMESW=2,2");
}

#[test]
fn reply_key_texts() {
    assert_eq!(ReplyKey::Time.text(), "+TIME");
    assert_eq!(ReplyKey::Output(7).text(), "+STACH7");
    assert_eq!(ReplyKey::DailySchedule(2).text(), "+TIMESW:2,1");
    assert_eq!(ReplyKey::CustomSchedule(10).text(), "+TIMESW:10,3");
}

#[test]
fn handlers_emit_commands_and_keys() {
    let mut s = RelayActor::new("h", 1, 4, 4);
    s.started(0);
    s.connect_succeeded();
    let t = SystemTime { date_time: "2021-01-02 03:04:05".to_string(), day_of_week: 6 };
    assert_eq!(s.set_system_time(SetSystemTime { time: t }).ok().unwrap(), "AT+TIME=2021-01-02 03:04:05 6");
    let ev = DailyEvent { time: "07:00:00".to_string(), state: 1 };
    assert_eq!(
        s.set_output_daily_schedule(SetOutputDailySchedule { number: 2, event: ev }).ok().unwrap(),
        "AT+TIMESW=2,1,07:00:00 1"
    );
    assert_eq!(
        s.clear_output_daily_schedule(ClearOutputDailySchedule { number: 2 }).ok().unwrap(),
        "AT+TIMESW=2,0"
    );
    let cev = CustomEvent { date_time: "2021-01-02 03:04:05".to_string(), state: 0 };
    assert_eq!(
        s.set_output_custom_schedule(SetOutputCustomSchedule { number: 3, event: cev }).ok().unwrap(),
        "AT+TIMESW=3,3,2021-01-02 03:04:05 0"
    );
    let q = s.get_output_daily_schedule(GetOutputDailySchedule { number: 2 }).ok().unwrap();
    assert_eq!(q.line, "AT+TIMESW=2,1?");
    let q2 = s.get_output_custom_schedule(GetOutputCustomSchedule { number: 2 }).ok().unwrap();
    assert_eq!(q2.line, "AT+TIMESW=2,3?");
    assert_eq!(q2.ticket, q.ticket + 1);
    let a = s.line_received("+TIMESW:2,3,2021-01-02 03:04:05 1", 5);
    match &a[0] {
        ajax_alarm::Action::Deliver { ticket, reply: Reply::CustomSchedule(v) } => {
            assert_eq!(*ticket, q2.ticket);
            assert_eq!(v.len(), 1);
            assert_eq!(v[0].date_time, "2021-01-02 03:04:05");
            assert_eq!(v[0].state, 1);
        }
        _ => panic!("expected the custom schedule"),
    }
}

#[test]
fn parse_time_reply() {
    match parse_frame("+TIME:2021-03-04 05:06:07 4") {
        Frame::Reply(ReplyKey::Time, Reply::Time(t)) => {
            assert_eq!(t.date_time, "2021-03-04 05:06:07");
            assert_eq!(t.day_of_week, 4);
        }
        _ => panic!("expected a time reply"),
    }
    assert!(matches!(parse_frame("+TIME:2021-03-04 05:06:07"), Frame::Malformed));
    assert!(matches!(parse_frame("+TIME:ab 1"), Frame::Malformed));
    assert!(matches!(parse_frame("+TIME:2021-03-04 05:06:07 x"), Frame::Malformed));
    assert!(matches!(parse_frame("+TIME:2021-03-04 05:06:07 12"), Frame::Malformed));
    assert!(matches!(parse_frame("+TIME"), Frame::Malformed));
}

#[test]
fn parse_output_reply() {
    assert!(matches!(parse_frame("+STACH3=1"), Frame::Reply(ReplyKey::Output(3), Reply::Output(1))));
    assert!(matches!(parse_frame("+STACH3=x"), Frame::Malformed));
    assert!(matches!(parse_frame("+STACH3"), Frame::Malformed));
}

#[test]
fn parse_daily_schedule_keeps_device_order() {
    match parse_frame("+TIMESW:1,1,08:00:00 1,12:30:00 0,20:15:00 1") {
        Frame::Reply(ReplyKey::DailySchedule(1), Reply::DailySchedule(v)) => {
            let got: Vec<(String, u32)> = v.into_iter().map(|e| (e.time, e.state)).collect();
            assert_eq!(
                got,
                vec![
                    ("08:00:00".to_string(), 1),
                    ("12:30:00".to_string(), 0),
                    ("20:15:00".to_string(), 1)
                ]
            );
        }
        _ => panic!("expected a daily schedule"),
    }
}

#[test]
fn parse_empty_schedule() {
    match parse_frame("+TIMESW:1,1") {
        Frame::Reply(ReplyKey::DailySchedule(1), Reply::DailySchedule(v)) => assert!(v.is_empty()),
        _ => panic!("expected an empty daily schedule"),
    }
}

#[test]
fn parse_schedule_skips_fields_of_other_shapes() {
    match parse_frame("+TIMESW:4,1,08:00:00 1,junk,09:00:00 x,10:00:00 0") {
        Frame::Reply(ReplyKey::DailySchedule(4), Reply::DailySchedule(v)) => {
            assert_eq!(v.len(), 2);
            assert_eq!(v[0].time, "08:00:00");
            assert_eq!(v[1].time, "10:00:00");
            assert_eq!(v[1].state, 0);
        }
        _ => panic!("expected a daily schedule"),
    }
}

#[test]
fn parse_clear_modes_and_unknown_lines() {
    assert!(matches!(parse_frame("+TIMESW:1,0"), Frame::Other));
    assert!(matches!(parse_frame("+TIMESW:1,2"), Frame::Other));
    assert!(matches!(parse_frame("+TIMESW:x,1"), Frame::Malformed));
    assert!(matches!(parse_frame("OK"), Frame::Other));
    assert!(matches!(parse_frame(""), Frame::Other));
}

#[test]
fn parse_inputs_push() {
    match parse_frame("+OCCH_ALL:0,1,0,1") {
        Frame::Inputs(v) => assert_eq!(v, vec![0, 1, 0, 1]),
        _ => panic!("expected inputs"),
    }
    assert!(matches!(parse_frame("+OCCH_ALL"), Frame::Malformed));
    assert!(matches!(parse_frame("+OCCH_ALL:"), Frame::Malformed));
}

#[test]
fn mask_is_weighted_sum() {
    assert_eq!(compute_mask(&vec![0, 0, 0, 0]), 0);
    assert_eq!(compute_mask(&vec![1, 0, 0, 0]), 1);
    assert_eq!(compute_mask(&vec![0, 1, 0, 0]), 2);
    assert_eq!(compute_mask(&vec![1, 0, 1, 1]), 13);
    assert_eq!(compute_mask(&vec![]), 0);
    assert_eq!(compute_mask(&vec![9; 60]), 9 * ((1u64 << 60) - 1));
}

#[test]
fn pending_table_fifo_and_isolation() {
    let mut t = PendingTable::new();
    t.enqueue(ReplyKey::Output(1), 10);
    t.enqueue(ReplyKey::Time, 11);
    t.enqueue(ReplyKey::Output(1), 12);
    assert_eq!(t.fire(ReplyKey::Output(2)), None);
    assert_eq!(t.fire(ReplyKey::Output(1)), Some(10));
    assert_eq!(t.fire(ReplyKey::Output(1)), Some(12));
    assert_eq!(t.fire(ReplyKey::Output(1)), None);
    assert_eq!(t.len(), 1);
    assert_eq!(t.fire(ReplyKey::Time), Some(11));
}

#[test]
fn registry_never_reissues() {
    let mut r = SubscriberRegistry::new();
    assert_eq!(r.register(5), 5);
    assert_eq!(r.register(5), 0);
    assert_eq!(r.register(0), 1);
    r.unregister(5);
    assert_eq!(r.register(5), 2);
    assert_eq!(r.registered(), vec![0, 1, 2]);
}

#[test]
fn time_set_then_read_back() {
    let t = SystemTime { date_time: "2023-11-12 13:14:15".to_string(), day_of_week: 7 };
    let written = time_set(&t);
    let payload = written.strip_prefix("AT+TIME=").unwrap();
    let reply = format!("+TIME:{}", payload);
    match parse_frame(&reply) {
        Frame::Reply(ReplyKey::Time, Reply::Time(back)) => {
            assert_eq!(back.date_time, t.date_time);
            assert_eq!(back.day_of_week, t.day_of_week);
        }
        _ => panic!("expected a time reply"),
    }
}

#[test]
fn output_set_then_read_back() {
    let written = output_set(2, 1);
    let reply = written.strip_prefix("AT").unwrap();
    assert!(matches!(parse_frame(reply), Frame::Reply(ReplyKey::Output(2), Reply::Output(1))));
}

#[test]
fn daily_set_then_read_back_and_clear() {
    let e = DailyEvent { time: "08:30:00".to_string(), state: 1 };
    let written = daily_add(1, &e);
    let entry = written.strip_prefix("AT+TIMESW=1,1,").unwrap();
    let reply = format!("+TIMESW:1,1,07:00:00 0,{}", entry);
    match parse_frame(&reply) {
        Frame::Reply(ReplyKey::DailySchedule(1), Reply::DailySchedule(v)) => {
            assert!(v.iter().any(|x| x.time == e.time && x.state == e.state));
            assert_eq!(v.len(), 2);
        }
        _ => panic!("expected a daily schedule"),
    }
    assert_eq!(daily_clear(1), "AT+TIMESW=1,0");
    match parse_frame("+TIMESW:1,1") {
        Frame::Reply(ReplyKey::DailySchedule(1), Reply::DailySchedule(v)) => assert!(v.is_empty()),
        _ => panic!("expected an empty daily schedule"),
    }
}
