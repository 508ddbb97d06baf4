use icmp_ping::{
    Action, Error, Event, Inbound, Ipv4Address, Phase, Reply, RequestsToSend, Session,
    TransmissionInterval, IDENTIFIER, REPLY_WINDOW_MICROS,
};
use icmp_socket::Icmpv4Message;

fn start(n: u16, interval: u16) -> (Session, Action) {
    Session::new(RequestsToSend(n), TransmissionInterval(interval))
}

fn source() -> Option<Ipv4Address> {
    Some(Ipv4Address { octets: [192, 0, 2, 1] })
}

fn echo_reply(identifier: u16, sequence: u16) -> Inbound {
    Inbound::EchoReply { identifier, sequence, payload: b"test packet".to_vec() }
}

fn expect_send(action: Action, expected: u16) {
    match action {
        Action::Send { sequence, packet } => {
            assert_eq!(sequence, expected);
            assert_eq!(packet.typ, 8);
            assert_eq!(packet.code, 0);
            match packet.message {
                Icmpv4Message::Echo { identifier, sequence, payload } => {
                    assert_eq!(identifier, IDENTIFIER);
                    assert_eq!(sequence, expected);
                    assert_eq!(payload, b"test packet".to_vec());
                }
                other => panic!("not an echo request: {:?}", other),
            }
        }
        other => panic!("expected a send, got {:?}", other),
    }
}

#[test]
fn silent_destination_reports_nothing_and_finishes() {
    let (mut s, first) = start(3, 200);
    assert!(matches!(first, Action::Pause { millis: 200 }));
    let mut lines = 0;
    for seq in 0..3u16 {
        expect_send(s.step(Event::Paced), seq);
        let at = seq as u64 * 1_000_000;
        assert!(matches!(s.step(Event::Sent { at }), Action::Await { deadline } if deadline == at + REPLY_WINDOW_MICROS));
        match s.step(Event::TimedOut) {
            Action::Report(_) => lines += 1,
            Action::Pause { millis } => {
                assert!(seq < 2);
                assert_eq!(millis, 200);
            }
            Action::Finish => assert_eq!(seq, 2),
            other => panic!("unexpected {:?}", other),
        }
    }
    assert_eq!(lines, 0);
    assert_eq!(s.phase, Phase::Finished);
}

#[test]
fn answering_destination_reports_each_sequence_in_order() {
    let n = 4u16;
    let (mut s, _) = start(n, 10);
    let mut reported = Vec::new();
    for seq in 0..n {
        expect_send(s.step(Event::Paced), seq);
        let at = 100 + seq as u64 * 10_000;
        s.step(Event::Sent { at });
        match s.step(Event::Received { source: source(), message: echo_reply(IDENTIFIER, seq), at: at + 250 }) {
            Action::Report(r) => reported.push(r),
            other => panic!("expected a report, got {:?}", other),
        }
        s.step(Event::Reported);
    }
    assert_eq!(s.phase, Phase::Finished);
    assert_eq!(reported.len(), n as usize);
    for (k, r) in reported.iter().enumerate() {
        assert_eq!(r.sequence, k as u16);
        assert_eq!(r.elapsed_micros, 250);
        assert_eq!(r.source, source());
    }
}

#[test]
fn mismatched_identifier_keeps_the_window_open() {
    let (mut s, _) = start(1, 10);
    s.step(Event::Paced);
    s.step(Event::Sent { at: 1_000 });
    let deadline = 1_000 + REPLY_WINDOW_MICROS;
    let a = s.step(Event::Received { source: source(), message: echo_reply(IDENTIFIER + 1, 0), at: 2_000 });
    assert!(matches!(a, Action::Await { deadline: d } if d == deadline));
    let a = s.step(Event::Received { source: source(), message: Inbound::Other, at: 3_000 });
    assert!(matches!(a, Action::Await { deadline: d } if d == deadline));
    assert_eq!(s.phase, Phase::Awaiting { sequence: 0, sent_at: 1_000 });
    assert!(matches!(s.step(Event::TimedOut), Action::Finish));
}

#[test]
fn matching_reply_after_unrelated_one_is_reported() {
    let (mut s, _) = start(2, 10);
    s.step(Event::Paced);
    s.step(Event::Sent { at: 0 });
    s.step(Event::Received { source: None, message: echo_reply(1, 0), at: 10 });
    match s.step(Event::Received { source: None, message: echo_reply(IDENTIFIER, 0), at: 40 }) {
        Action::Report(r) => assert_eq!(r, Reply { source: None, sequence: 0, elapsed_micros: 40 }),
        other => panic!("expected a report, got {:?}", other),
    }
    assert!(matches!(s.step(Event::Reported), Action::Pause { millis: 10 }));
}

#[test]
fn reply_after_the_deadline_is_a_miss() {
    let (mut s, _) = start(1, 10);
    s.step(Event::Paced);
    s.step(Event::Sent { at: 0 });
    let a = s.step(Event::Received { source: source(), message: echo_reply(IDENTIFIER, 0), at: REPLY_WINDOW_MICROS });
    assert!(matches!(a, Action::Finish));
}

#[test]
fn elapsed_is_measured_from_this_iterations_send() {
    let (mut s, _) = start(2, 10);
    s.step(Event::Paced);
    s.step(Event::Sent { at: 500 });
    s.step(Event::TimedOut);
    s.step(Event::Paced);
    s.step(Event::Sent { at: 9_000_000 });
    match s.step(Event::Received { source: source(), message: echo_reply(IDENTIFIER, 1), at: 9_001_234 }) {
        Action::Report(r) => assert_eq!(r.elapsed_micros, 1_234),
        other => panic!("expected a report, got {:?}", other),
    }
}

#[test]
fn stale_sequence_is_reported_as_received() {
    let (mut s, _) = start(2, 10);
    s.step(Event::Paced);
    s.step(Event::Sent { at: 0 });
    s.step(Event::TimedOut);
    s.step(Event::Paced);
    s.step(Event::Sent { at: 100 });
    match s.step(Event::Received { source: None, message: echo_reply(IDENTIFIER, 0), at: 150 }) {
        Action::Report(r) => assert_eq!(r.sequence, 0),
        other => panic!("expected a report, got {:?}", other),
    }
}

#[test]
fn event_out_of_order_aborts() {
    let (mut s, _) = start(1, 10);
    assert!(matches!(s.step(Event::TimedOut), Action::Abort(Error::OutOfOrder)));
    assert_eq!(s.phase, Phase::Failed);
}

#[test]
fn report_lines() {
    let r = Reply { source: source(), sequence: 3, elapsed_micros: 12_345 };
    assert_eq!(r.line(), "192.0.2.1,3,12345");
    let r = Reply { source: None, sequence: 0, elapsed_micros: 0 };
    assert_eq!(r.line(), ",0,0");
}

#[test]
fn payload_is_the_fixed_text() {
    assert_eq!(icmp_ping::payload(), b"test packet".to_vec());
}
