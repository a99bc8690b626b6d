use tcping::report::{header_line, packets_line, statistics_title};
use tcping::session::{Action, Event, PingSession};

fn strip_colors(s: &str) -> String {
    s.replace("\x1b[33m", "").replace("\x1b[0m", "")
}

/// Runs a session without stop requests, answering probes from `outcomes`,
/// and returns the actions it asked for.
fn drive(session: &mut PingSession, outcomes: &[Option<u64>]) -> Vec<Action> {
    let mut actions = Vec::new();
    let mut event = Event::Tick { stop_requested: false };
    let mut next = 0;
    loop {
        assert!(session.accepts(&event));
        let action = session.step(event);
        actions.push(action);
        match action {
            Action::Probe { .. } => {
                event = match outcomes[next] {
                    Some(latency_ns) => Event::Reply { latency_ns },
                    None => Event::NoReply,
                };
                next += 1;
            }
            Action::Wait { .. } => event = Event::Tick { stop_requested: false },
            Action::Finish => break,
        }
    }
    actions
}

#[test]
fn full_run_probes_in_order_with_waits_between() {
    let mut session = PingSession::new(3, 500);
    let actions = drive(&mut session, &[Some(1000), None, Some(3000)]);
    assert_eq!(
        actions,
        vec![
            Action::Probe { seq: 1 },
            Action::Wait { millis: 500 },
            Action::Probe { seq: 2 },
            Action::Wait { millis: 500 },
            Action::Probe { seq: 3 },
            Action::Finish,
        ]
    );
    assert!(session.is_finished());
    let r = session.stats().get_result();
    assert_eq!(r.total_packages, 3);
    assert_eq!(r.received_packages, 2);
    assert_eq!(r.min_latency, 1000);
    assert_eq!(r.max_latency, 3000);
}

#[test]
fn stop_request_ends_the_run() {
    let mut session = PingSession::new(5, 100);
    assert_eq!(session.step(Event::Tick { stop_requested: false }), Action::Probe { seq: 1 });
    assert_eq!(session.step(Event::Reply { latency_ns: 42 }), Action::Wait { millis: 100 });
    assert_eq!(session.step(Event::Tick { stop_requested: true }), Action::Finish);
    assert!(session.is_finished());
    assert!(!session.accepts(&Event::Tick { stop_requested: false }));
    let r = session.stats().get_result();
    assert_eq!(r.total_packages, 1);
    assert_eq!(r.received_packages, 1);
}

#[test]
fn large_counts_are_accepted_and_can_be_stopped() {
    let mut session = PingSession::new(u32::MAX, 500);
    assert_eq!(session.step(Event::Tick { stop_requested: false }), Action::Probe { seq: 1 });
    assert_eq!(session.step(Event::NoReply), Action::Wait { millis: 500 });
    assert_eq!(session.step(Event::Tick { stop_requested: false }), Action::Probe { seq: 2 });
    assert_eq!(session.step(Event::Reply { latency_ns: 7 }), Action::Wait { millis: 500 });
    assert_eq!(session.step(Event::Tick { stop_requested: true }), Action::Finish);
    let r = session.stats().get_result();
    assert_eq!((r.total_packages, r.received_packages), (2, 1));
}

#[test]
fn outcome_is_refused_before_a_probe() {
    let session = PingSession::new(1, 0);
    assert!(!session.accepts(&Event::NoReply));
    assert!(session.accepts(&Event::Tick { stop_requested: true }));
}

#[test]
fn test_zero_ping_count() {
    // tcping google.com 80 -n 0
    let mut session = PingSession::new(0, 500);
    let actions = drive(&mut session, &[]);
    assert_eq!(actions, vec![Action::Finish]);
    let r = session.stats().get_result();
    assert!(statistics_title("google.com").contains("ping statistics"));
    assert!(packets_line(&r, "NaN").contains("0 packets transmitted"));
}

#[test]
fn test_custom_ping_count() {
    // tcping 127.0.0.1 9999 -n 2, nothing listening
    let mut session = PingSession::new(2, 500);
    let actions = drive(&mut session, &[None, None]);
    let probes = actions.iter().filter(|a| matches!(a, Action::Probe { .. })).count();
    assert!(probes <= 2);
    assert_eq!(probes, 2);
    let r = session.stats().get_result();
    assert!(statistics_title("127.0.0.1").contains("ping statistics"));
    assert_eq!(
        packets_line(&r, "100.0"),
        "2 packets transmitted, 0 packets received, 100.0% packet loss"
    );
}

#[test]
fn integration_tests_test_default_values() {
    // tcping 127.0.0.1 9999
    assert!(strip_colors(&header_line("127.0.0.1", 9999)).contains("TCPing 127.0.0.1 on port 9999"));
}

#[test]
fn integration_tests_test_long_argument_names() {
    // tcping 127.0.0.1 9999 --num 1 --timeout 1 --interval 100
    assert!(strip_colors(&header_line("127.0.0.1", 9999)).contains("TCPing 127.0.0.1 on port 9999"));
    let mut session = PingSession::new(1, 100);
    let actions = drive(&mut session, &[None]);
    assert_eq!(actions, vec![Action::Probe { seq: 1 }, Action::Finish]);
}

#[test]
fn test_valid_arguments() {
    // tcping 127.0.0.1 9999 -n 1 -t 1 -i 100
    let header = strip_colors(&header_line("127.0.0.1", 9999));
    let mut session = PingSession::new(1, 100);
    drive(&mut session, &[None]);
    assert!(header.contains("TCPing") || statistics_title("127.0.0.1").contains("ping statistics"));
}
