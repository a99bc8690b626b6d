use tcping::report::{
    failure_line, failure_message, header_line, latency_from_nanos, packets_line, reply_line,
    round_trip_line, statistics_title, FailureKind,
};
use tcping::stats::StatsCalculator;
use tcping::text::decimal;

/// Removes the yellow and reset sequences that highlighting may add.
fn strip_colors(s: &str) -> String {
    s.replace("\x1b[33m", "").replace("\x1b[0m", "")
}

#[test]
fn decimal_rendering() {
    assert_eq!(decimal(0), "0");
    assert_eq!(decimal(7), "7");
    assert_eq!(decimal(443), "443");
    assert_eq!(decimal(1000), "1000");
    assert_eq!(decimal(u64::MAX as u128), "18446744073709551615");
}

#[test]
fn header_is_plain_or_highlighted() {
    colored::control::set_override(false);
    assert_eq!(header_line("127.0.0.1", 9999), "TCPing 127.0.0.1 on port 9999.");
    colored::control::set_override(true);
    assert_eq!(
        header_line("127.0.0.1", 9999),
        "TCPing \x1b[33m127.0.0.1\x1b[0m on port \x1b[33m9999\x1b[0m."
    );
    colored::control::unset_override();
    assert_eq!(
        strip_colors(&header_line("google.com", 443)),
        "TCPing google.com on port 443."
    );
}

#[test]
fn reply_line_text() {
    assert_eq!(
        reply_line("localhost", "127.0.0.1", 22, 3, "1.234"),
        "Reply from localhost(127.0.0.1) on port 22 TCP_conn=3 time=1.234 ms"
    );
}

#[test]
fn failure_messages_by_kind() {
    assert_eq!(failure_message(FailureKind::TimedOut, "x"), "Connection timed out");
    assert_eq!(failure_message(FailureKind::ConnectionRefused, "x"), "Connection refused");
    assert_eq!(failure_message(FailureKind::ConnectionAborted, "x"), "Connection was aborted");
    assert_eq!(failure_message(FailureKind::ConnectionReset, "x"), "Connection was reset");
    assert_eq!(failure_message(FailureKind::AddrNotAvailable, "x"), "Address not available");
    assert_eq!(
        failure_message(FailureKind::Other, "Network is unreachable (os error 101)"),
        "Connection failed: Network is unreachable (os error 101)"
    );
    assert_eq!(
        failure_line(2, "Connection refused"),
        "Failed to connect (TCP_conn=2): Connection refused"
    );
}

#[test]
fn statistics_lines_of_a_run() {
    let mut stats = StatsCalculator::new();
    stats.add(10_000_000);
    stats.add_loss();
    stats.add(20_000_000);
    stats.add(30_000_000);
    let r = stats.get_result();
    assert_eq!(statistics_title("example.org"), "--- example.org ping statistics ---");
    assert_eq!(
        packets_line(&r, "25.0"),
        "4 packets transmitted, 3 packets received, 25.0% packet loss"
    );
    assert_eq!(
        round_trip_line("10.000", "20.000", "30.000", "10.000"),
        "round-trip min/avg/max/stddev = 10.000/20.000/30.000/10.000 ms"
    );
}

#[test]
fn empty_run_counts_nothing() {
    let stats = StatsCalculator::new();
    let r = stats.get_result();
    assert_eq!(
        packets_line(&r, "NaN"),
        "0 packets transmitted, 0 packets received, NaN% packet loss"
    );
    assert_eq!((r.min_latency, r.max_latency), (0, 0));
    assert_eq!((r.avg_latency.num, r.avg_latency.den), (0, 1));
}

#[test]
fn latency_is_kept_or_capped() {
    assert_eq!(latency_from_nanos(0), 0);
    assert_eq!(latency_from_nanos(20_000_500), 20_000_500);
    assert_eq!(latency_from_nanos(u64::MAX as u128), u64::MAX);
    assert_eq!(latency_from_nanos(u64::MAX as u128 + 1), u64::MAX);
}
