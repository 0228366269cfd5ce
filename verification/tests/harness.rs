use lane_harness::{
    collect_envelope, lane_for_step, lane_label_string, lane_step, make_task, run_dispatch,
    run_step, step_envelopes, HistoryKind, LaneAction, Message, MessageKind,
};
use lane_harness::decimal::decimal_string;

fn history_entry(m: &Message, kind: HistoryKind) -> String {
    m.history.get(kind).expect("missing history entry").clone()
}

#[test]
fn decimal_renders_exact_values() {
    assert_eq!(decimal_string(0).as_str(), "0");
    assert_eq!(decimal_string(7).as_str(), "7");
    assert_eq!(decimal_string(10).as_str(), "10");
    assert_eq!(decimal_string(42).as_str(), "42");
    assert_eq!(decimal_string(600000).as_str(), "600000");
    assert_eq!(decimal_string(600001).as_str(), "600001");
}

#[test]
fn lane_labels_count_from_one() {
    assert_eq!(lane_label_string(0).as_str(), "ch1");
    assert_eq!(lane_label_string(1).as_str(), "ch2");
    assert_eq!(lane_label_string(2).as_str(), "ch3");
    assert_eq!(lane_label_string(9).as_str(), "ch10");
}

#[test]
fn fresh_message_has_label_and_empty_history() {
    let m = Message::new(0);
    assert_eq!(m.name.as_str(), "Message #0");
    assert_eq!(m.identifier, 0);
    assert!(!m.history.contains(HistoryKind::Request));
    assert!(!m.history.contains(HistoryKind::Response));

    let m = Message::new(42);
    assert_eq!(m.name.as_str(), "Message #42");
    assert_eq!(m.identifier, 42);
}

#[test]
fn history_insert_and_get() {
    let mut m = Message::new(5);
    m.history.insert(HistoryKind::Request, String::from("first"));
    assert!(m.history.contains(HistoryKind::Request));
    assert!(!m.history.contains(HistoryKind::Response));
    assert_eq!(history_entry(&m, HistoryKind::Request), "first");

    m.history.insert(HistoryKind::Request, String::from("second"));
    assert_eq!(history_entry(&m, HistoryKind::Request), "second");

    m.history.insert(HistoryKind::Response, String::from("done"));
    assert_eq!(history_entry(&m, HistoryKind::Response), "done");
    assert_eq!(history_entry(&m, HistoryKind::Request), "second");
}

#[test]
fn round_trip_request_through_lane_and_collection() {
    // A message with identifier 42 sent as a request and processed by
    // lane "ch1" comes back with the lane's provenance, and the
    // dispatcher's stamp marks the response stage.
    let msg = Message::new(42);
    let action = lane_step("ch1", MessageKind::Request(msg));
    let reply = match action {
        LaneAction::Reply(e) => e,
        _ => panic!("a request must produce a reply"),
    };
    match &reply {
        MessageKind::Response(m) => {
            assert_eq!(m.identifier, 42);
            assert_eq!(history_entry(m, HistoryKind::Request), "ch1: OK");
            assert!(!m.history.contains(HistoryKind::Response));
        },
        _ => panic!("the reply to a request must be a response"),
    }
    let mut sink: Vec<Message> = Vec::new();
    collect_envelope(reply, &mut sink);
    assert_eq!(sink.len(), 1);
    assert_eq!(sink[0].identifier, 42);
    assert_eq!(sink[0].name.as_str(), "Message #42");
    assert_eq!(history_entry(&sink[0], HistoryKind::Request), "ch1: OK");
    assert_eq!(history_entry(&sink[0], HistoryKind::Response), "OK");
}

#[test]
fn heartbeat_is_echoed_verbatim() {
    match lane_step("ch2", MessageKind::HeartBeat(7)) {
        LaneAction::Reply(MessageKind::HeartBeat(n)) => assert_eq!(n, 7),
        _ => panic!("a heartbeat must be echoed"),
    }
}

#[test]
fn stray_response_is_discarded() {
    match lane_step("ch1", MessageKind::Response(Message::new(3))) {
        LaneAction::Ignore => {},
        _ => panic!("a stray response must be ignored"),
    }
}

#[test]
fn terminate_exits_the_lane() {
    match lane_step("ch3", MessageKind::Terminate) {
        LaneAction::Exit => {},
        _ => panic!("terminate must end the lane"),
    }
}

#[test]
fn lane_run_stops_at_first_terminate() {
    // Nothing after the terminate is processed, even a live request.
    let inbox = vec![
        MessageKind::Request(Message::new(0)),
        MessageKind::HeartBeat(5),
        MessageKind::Terminate,
        MessageKind::Request(Message::new(1)),
    ];
    let (out, consumed) = make_task("ch1", inbox);
    assert_eq!(consumed, 3);
    assert_eq!(out.len(), 2);
    match &out[0] {
        MessageKind::Response(m) => {
            assert_eq!(m.identifier, 0);
            assert_eq!(history_entry(m, HistoryKind::Request), "ch1: OK");
        },
        _ => panic!("first reply must be the response"),
    }
    match &out[1] {
        MessageKind::HeartBeat(n) => assert_eq!(*n, 5),
        _ => panic!("second reply must be the heartbeat echo"),
    }
}

#[test]
fn lane_run_on_empty_inbox() {
    let (out, consumed) = make_task("ch1", Vec::new());
    assert_eq!(consumed, 0);
    assert!(out.is_empty());
}

#[test]
fn probes_never_reach_the_sink() {
    let mut sink: Vec<Message> = Vec::new();
    collect_envelope(MessageKind::HeartBeat(9), &mut sink);
    collect_envelope(MessageKind::Terminate, &mut sink);
    collect_envelope(MessageKind::Request(Message::new(1)), &mut sink);
    assert!(sink.is_empty());
}

#[test]
fn fanout_targets_one_lane_per_step() {
    let envs = step_envelopes(4, 3);
    assert_eq!(envs.len(), 3);
    match &envs[1] {
        MessageKind::Request(m) => {
            assert_eq!(m.identifier, 4);
            assert_eq!(m.name.as_str(), "Message #4");
        },
        _ => panic!("lane 1 must get the live request of step 4"),
    }
    for i in [0usize, 2] {
        match &envs[i] {
            MessageKind::HeartBeat(n) => assert_eq!(*n, 4),
            _ => panic!("idle lanes must get a heartbeat"),
        }
    }
}

#[test]
fn one_step_appends_one_record() {
    let mut sink: Vec<Message> = Vec::new();
    run_step(0, 3, &mut sink);
    assert_eq!(sink.len(), 1);
    assert_eq!(sink[0].identifier, 0);
    assert_eq!(history_entry(&sink[0], HistoryKind::Request), "ch1: OK");
    assert_eq!(history_entry(&sink[0], HistoryKind::Response), "OK");
}

#[test]
fn nine_step_run_over_three_lanes() {
    // Lane assignment round-robins 0,1,2,0,1,2,... and the sink holds
    // one record per step, in ascending identifier order.
    let expected_lanes = [0usize, 1, 2, 0, 1, 2, 0, 1, 2, 0];
    for (step, lane) in expected_lanes.iter().enumerate() {
        assert_eq!(lane_for_step(step, 3), *lane);
    }
    let sink = run_dispatch(3, 9);
    assert_eq!(sink.len(), 10);
    for (s, record) in sink.iter().enumerate() {
        assert_eq!(record.identifier, s);
        let label = lane_label_string(s % 3);
        let stamp = format!("{}: OK", label);
        assert_eq!(history_entry(record, HistoryKind::Request), stamp);
        assert_eq!(history_entry(record, HistoryKind::Response), "OK");
    }
}

#[test]
fn single_lane_single_step_run() {
    let sink = run_dispatch(1, 0);
    assert_eq!(sink.len(), 1);
    assert_eq!(sink[0].identifier, 0);
    assert_eq!(sink[0].name.as_str(), "Message #0");
    assert_eq!(history_entry(&sink[0], HistoryKind::Request), "ch1: OK");
}

#[test]
fn record_renders_as_one_stable_line() {
    let sink = run_dispatch(3, 0);
    let line = sink[0].render();
    assert_eq!(
        line.as_str(),
        "Message #0 | identifier: 0 | Request: ch1: OK | Response: OK"
    );
}
