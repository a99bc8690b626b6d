//! The lines a ping run prints, built from plain values.

use vstd::prelude::*;

use colored::Colorize;

use crate::stats::PingStats;
use crate::text::{decimal, decimal_digits, is_decimal_of, law_decimal_digits_denote};

verus! {

/// The escape sequence that turns the foreground yellow.
pub open spec fn yellow_prefix() -> Seq<char> {
    seq!['\x1b', '[', '3', '3', 'm']
}

/// The escape sequence that resets colors.
pub open spec fn reset_suffix() -> Seq<char> {
    seq!['\x1b', '[', '0', 'm']
}

/// `t` holds a color reset sequence somewhere.
pub open spec fn contains_reset(t: Seq<char>) -> bool {
    exists|i: int| 0 <= i && i + 4 <= t.len() && #[trigger] t.subrange(i, i + 4) == reset_suffix()
}

/// `shown` is `plain` as the terminal highlighting may render it: either
/// unchanged, or wrapped in the yellow and reset sequences (and, when `plain`
/// holds a reset itself, at least starting yellow and ending with a reset).
pub open spec fn highlighted(plain: Seq<char>, shown: Seq<char>) -> bool {
    ||| shown == plain
    ||| shown == yellow_prefix() + plain + reset_suffix()
    ||| contains_reset(plain) && shown.len() >= 9 && shown.subrange(0, 5) == yellow_prefix()
        && shown.subrange(shown.len() - 4, shown.len() as int) == reset_suffix()
}

/// Renders `text` in yellow through `colored::Colorize::yellow` and
/// `ToString::to_string` on the `ColoredString`. colored decides from the
/// process environment (`NO_COLOR`, `CLICOLOR`, `CLICOLOR_FORCE`, whether
/// standard output is a terminal) or from an override set through
/// `colored::control` whether to color at all: when it does not, the text
/// comes back unchanged; when it does, it comes back as `ESC[33m`, the text
/// with `ESC[33m` inserted after each `ESC[0m` inside it, and `ESC[0m`.
/// Which of the two happens is not stated, as it rests on the environment.
#[verifier::external_body]
fn highlight(text: &str) -> (shown: String)
    ensures
        highlighted(text@, shown@),
{
    text.yellow().to_string()
}

/// The header line: `TCPing <host> on port <port>.`, host and port
/// highlighted.
pub open spec fn header_text(host: Seq<char>, port: nat, line: Seq<char>) -> bool {
    exists|h: Seq<char>, p: Seq<char>|
        #![trigger highlighted(host, h), highlighted(decimal_digits(port), p)]
        highlighted(host, h) && highlighted(decimal_digits(port), p) && line == "TCPing "@ + h
            + " on port "@ + p + "."@
}

/// The line announcing a run against `host` and `port`.
pub fn header_line(host: &str, port: u16) -> (line: String)
    ensures
        header_text(host@, port as nat, line@),
{
    let shown_host = highlight(host);
    let port_text = decimal(port as u128);
    let shown_port = highlight(port_text.as_str());
    let mut line = String::from_str("TCPing ");
    line.append(shown_host.as_str());
    line.append(" on port ");
    line.append(shown_port.as_str());
    line.append(".");
    proof {
        assert(highlighted(host@, shown_host@) && highlighted(decimal_digits(port as nat), shown_port@));
    }
    line
}

/// `Reply from <host>(<ip>) on port <port> TCP_conn=<seq> time=<time> ms`,
/// `time` being the time taken as the caller writes it in milliseconds.
pub open spec fn reply_text(host: Seq<char>, ip: Seq<char>, port: nat, seq: nat, time: Seq<char>) -> Seq<char> {
    "Reply from "@ + host + "("@ + ip + ") on port "@ + decimal_digits(port) + " TCP_conn="@
        + decimal_digits(seq) + " time="@ + time + " ms"@
}

/// The line for an answered probe; `time_ms` is the time taken, in
/// milliseconds, as it is to be shown.
pub fn reply_line(host: &str, ip: &str, port: u16, seq: u32, time_ms: &str) -> (line: String)
    ensures
        line@ == reply_text(host@, ip@, port as nat, seq as nat, time_ms@),
{
    let mut line = String::from_str("Reply from ");
    line.append(host);
    line.append("(");
    line.append(ip);
    line.append(") on port ");
    line.append(decimal(port as u128).as_str());
    line.append(" TCP_conn=");
    line.append(decimal(seq as u128).as_str());
    line.append(" time=");
    line.append(time_ms);
    line.append(" ms");
    line
}

/// Why a connection attempt failed.
#[derive(Clone, Copy, Debug, PartialEq, Eq, Structural)]
pub enum FailureKind {
    TimedOut,
    ConnectionRefused,
    ConnectionAborted,
    ConnectionReset,
    AddrNotAvailable,
    Other,
}

/// The description of a failed attempt; `detail` is the system's own
/// description, used for failures of no other kind.
pub open spec fn failure_text(kind: FailureKind, detail: Seq<char>) -> Seq<char> {
    match kind {
        FailureKind::TimedOut => "Connection timed out"@,
        FailureKind::ConnectionRefused => "Connection refused"@,
        FailureKind::ConnectionAborted => "Connection was aborted"@,
        FailureKind::ConnectionReset => "Connection was reset"@,
        FailureKind::AddrNotAvailable => "Address not available"@,
        FailureKind::Other => "Connection failed: "@ + detail,
    }
}

/// Describes a failed connection attempt.
pub fn failure_message(kind: FailureKind, detail: &str) -> (message: String)
    ensures
        message@ == failure_text(kind, detail@),
{
    match kind {
        FailureKind::TimedOut => String::from_str("Connection timed out"),
        FailureKind::ConnectionRefused => String::from_str("Connection refused"),
        FailureKind::ConnectionAborted => String::from_str("Connection was aborted"),
        FailureKind::ConnectionReset => String::from_str("Connection was reset"),
        FailureKind::AddrNotAvailable => String::from_str("Address not available"),
        FailureKind::Other => {
            let mut message = String::from_str("Connection failed: ");
            message.append(detail);
            message
        },
    }
}

/// `Failed to connect (TCP_conn=<seq>): <message>`.
pub open spec fn failure_line_text(seq: nat, message: Seq<char>) -> Seq<char> {
    "Failed to connect (TCP_conn="@ + decimal_digits(seq) + "): "@ + message
}

/// The line for a probe that got no answer.
pub fn failure_line(seq: u32, message: &str) -> (line: String)
    ensures
        line@ == failure_line_text(seq as nat, message@),
{
    let mut line = String::from_str("Failed to connect (TCP_conn=");
    line.append(decimal(seq as u128).as_str());
    line.append("): ");
    line.append(message);
    line
}

/// `--- <host> ping statistics ---`.
pub open spec fn title_text(host: Seq<char>) -> Seq<char> {
    "--- "@ + host + " ping statistics ---"@
}

/// The title of the statistics of a run against `host`.
pub fn statistics_title(host: &str) -> (line: String)
    ensures
        line@ == title_text(host@),
{
    let mut line = String::from_str("--- ");
    line.append(host);
    line.append(" ping statistics ---");
    line
}

/// `<total> packets transmitted, <received> packets received, <loss>% packet loss`,
/// `loss` being the loss percentage as the caller writes it.
pub open spec fn packets_text(total: nat, received: nat, loss: Seq<char>) -> Seq<char> {
    decimal_digits(total) + " packets transmitted, "@ + decimal_digits(received)
        + " packets received, "@ + loss + "% packet loss"@
}

/// The line counting the packets of a run; `loss_percent` is the share of
/// lost packets, in percent, as it is to be shown.
pub fn packets_line(stats: &PingStats, loss_percent: &str) -> (line: String)
    requires
        0 <= stats.received_packages,
        0 <= stats.total_packages,
    ensures
        line@ == packets_text(
            stats.total_packages as nat,
            stats.received_packages as nat,
            loss_percent@,
        ),
{
    let mut line = decimal(stats.total_packages as u128);
    line.append(" packets transmitted, ");
    line.append(decimal(stats.received_packages as u128).as_str());
    line.append(" packets received, ");
    line.append(loss_percent);
    line.append("% packet loss");
    line
}

/// `round-trip min/avg/max/stddev = <min>/<avg>/<max>/<stddev> ms`, the
/// figures as the caller writes them in milliseconds.
pub open spec fn round_trip_text(min: Seq<char>, avg: Seq<char>, max: Seq<char>, std_dev: Seq<char>) -> Seq<char> {
    "round-trip min/avg/max/stddev = "@ + min + "/"@ + avg + "/"@ + max + "/"@ + std_dev + " ms"@
}

/// The line with the latency figures of a run, each given as it is to be
/// shown.
pub fn round_trip_line(min: &str, avg: &str, max: &str, std_dev: &str) -> (line: String)
    ensures
        line@ == round_trip_text(min@, avg@, max@, std_dev@),
{
    let mut line = String::from_str("round-trip min/avg/max/stddev = ");
    line.append(min);
    line.append("/");
    line.append(avg);
    line.append("/");
    line.append(max);
    line.append("/");
    line.append(std_dev);
    line.append(" ms");
    line
}

/// The latency, in nanoseconds, that a sample records for a probe answered
/// after `elapsed_ns` nanoseconds: the time itself, or the largest sample
/// (some 584 years) for longer times.
pub open spec fn latency_nanos(elapsed_ns: nat) -> nat {
    if elapsed_ns > u64::MAX {
        u64::MAX as nat
    } else {
        elapsed_ns
    }
}

/// The sample to record for a probe answered after `elapsed_ns`
/// nanoseconds.
pub fn latency_from_nanos(elapsed_ns: u128) -> (latency_ns: u64)
    ensures
        latency_ns == latency_nanos(elapsed_ns as nat),
{
    if elapsed_ns > u64::MAX as u128 {
        u64::MAX
    } else {
        elapsed_ns as u64
    }
}

/// A header line holds the host and the port written in decimal, each as
/// the highlighting renders it, in that order.
pub proof fn law_header_fields(host: Seq<char>, port: nat, line: Seq<char>)
    requires
        header_text(host, port, line),
    ensures
        exists|h: Seq<char>, digits: Seq<char>, p: Seq<char>|
            #![trigger highlighted(host, h), highlighted(digits, p)]
            highlighted(host, h) && is_decimal_of(digits, port as int) && highlighted(digits, p)
                && line == "TCPing "@ + h + " on port "@ + p + "."@,
{
    law_decimal_digits_denote(port);
}

/// A reply line names the host, its address, the port and the probe number
/// (both written in decimal) and the time, in that order.
pub proof fn law_reply_line_fields(host: Seq<char>, ip: Seq<char>, port: nat, seq: nat, time: Seq<char>)
    ensures
        exists|p: Seq<char>, q: Seq<char>|
            #![trigger is_decimal_of(p, port as int), is_decimal_of(q, seq as int)]
            is_decimal_of(p, port as int) && is_decimal_of(q, seq as int) && reply_text(
                host,
                ip,
                port,
                seq,
                time,
            ) == "Reply from "@ + host + "("@ + ip + ") on port "@ + p + " TCP_conn="@ + q
                + " time="@ + time + " ms"@,
{
    law_decimal_digits_denote(port);
    law_decimal_digits_denote(seq);
}

/// A failure line gives the probe number, written in decimal, then the
/// description.
pub proof fn law_failure_line_fields(seq: nat, message: Seq<char>)
    ensures
        exists|q: Seq<char>|
            #![trigger is_decimal_of(q, seq as int)]
            is_decimal_of(q, seq as int) && failure_line_text(seq, message)
                == "Failed to connect (TCP_conn="@ + q + "): "@ + message,
{
    law_decimal_digits_denote(seq);
}

/// The packets line gives the packets sent, then the packets received (both
/// written in decimal), then the loss.
pub proof fn law_packets_line_fields(total: nat, received: nat, loss: Seq<char>)
    ensures
        exists|t: Seq<char>, r: Seq<char>|
            #![trigger is_decimal_of(t, total as int), is_decimal_of(r, received as int)]
            is_decimal_of(t, total as int) && is_decimal_of(r, received as int) && packets_text(
                total,
                received,
                loss,
            ) == t + " packets transmitted, "@ + r + " packets received, "@ + loss
                + "% packet loss"@,
{
    law_decimal_digits_denote(total);
    law_decimal_digits_denote(received);
}

/// The round-trip line is its title, then the smallest latency, the mean,
/// the largest and the standard deviation, each followed by a `/` but the
/// last, which is followed by ` ms`: each figure stands at its own place.
pub proof fn law_round_trip_fields(min: Seq<char>, avg: Seq<char>, max: Seq<char>, std_dev: Seq<char>)
    ensures
        ({
            let t = round_trip_text(min, avg, max, std_dev);
            let title = "round-trip min/avg/max/stddev = "@;
            let a: int = title.len() + min.len() as int;
            let b: int = a + 1 + avg.len();
            let c: int = b + 1 + max.len();
            let d: int = c + 1 + std_dev.len();
            &&& t.len() == d + 3
            &&& t.subrange(0, title.len() as int) == title
            &&& t.subrange(title.len() as int, a as int) == min
            &&& t[a as int] == '/'
            &&& t.subrange(a + 1, b as int) == avg
            &&& t[b as int] == '/'
            &&& t.subrange(b + 1, c as int) == max
            &&& t[c as int] == '/'
            &&& t.subrange(c + 1, d as int) == std_dev
            &&& t.subrange(d as int, d + 3) == seq![' ', 'm', 's']
        }),
{
    reveal_strlit("/");
    reveal_strlit(" ms");
    let t = round_trip_text(min, avg, max, std_dev);
    let title = "round-trip min/avg/max/stddev = "@;
    let a: int = title.len() + min.len() as int;
    let b: int = a + 1 + avg.len();
    let c: int = b + 1 + max.len();
    let d: int = c + 1 + std_dev.len();
    assert(t.subrange(0, title.len() as int) =~= title);
    assert(t.subrange(title.len() as int, a as int) =~= min);
    assert(t.subrange(a + 1, b as int) =~= avg);
    assert(t.subrange(b + 1, c as int) =~= max);
    assert(t.subrange(c + 1, d as int) =~= std_dev);
    assert(t.subrange(d as int, d + 3) =~= seq![' ', 'm', 's']);
}

/// A sample keeps the time a probe took, to the nanosecond, up to the
/// largest sample; longer times are recorded as the largest sample.
pub proof fn law_latency_kept(elapsed_ns: nat)
    ensures
        elapsed_ns <= u64::MAX ==> latency_nanos(elapsed_ns) == elapsed_ns,
        elapsed_ns > u64::MAX ==> latency_nanos(elapsed_ns) == u64::MAX,
{
}

/// The statistics title is `--- `, the host, then ` ping statistics ---`.
pub proof fn law_title_fields(host: Seq<char>)
    ensures
        ({
            let t = title_text(host);
            &&& t.len() == host.len() + 24
            &&& t.subrange(0, 4) == seq!['-', '-', '-', ' ']
            &&& t.subrange(4, 4 + host.len() as int) == host
            &&& t.subrange(4 + host.len() as int, t.len() as int) == " ping statistics ---"@
        }),
{
    reveal_strlit("--- ");
    reveal_strlit(" ping statistics ---");
    let t = title_text(host);
    assert(t.subrange(0, 4) =~= seq!['-', '-', '-', ' ']);
    assert(t.subrange(4, 4 + host.len() as int) =~= host);
    assert(t.subrange(4 + host.len() as int, t.len() as int) =~= " ping statistics ---"@);
}

/// Each kind of failure has its own fixed description, whatever the system
/// said; a failure of no listed kind is described as `Connection failed: `
/// followed by what the system said.
pub proof fn law_failure_descriptions(detail: Seq<char>)
    ensures
        failure_text(FailureKind::TimedOut, detail) == "Connection timed out"@,
        failure_text(FailureKind::ConnectionRefused, detail) == "Connection refused"@,
        failure_text(FailureKind::ConnectionAborted, detail) == "Connection was aborted"@,
        failure_text(FailureKind::ConnectionReset, detail) == "Connection was reset"@,
        failure_text(FailureKind::AddrNotAvailable, detail) == "Address not available"@,
        failure_text(FailureKind::Other, detail).subrange(19, 19 + detail.len() as int) == detail,
        failure_text(FailureKind::Other, detail).subrange(0, 19) == "Connection failed: "@,
        failure_text(FailureKind::Other, detail).len() == 19 + detail.len(),
{
    reveal_strlit("Connection failed: ");
    let t = failure_text(FailureKind::Other, detail);
    assert(t.subrange(19, 19 + detail.len() as int) =~= detail);
    assert(t.subrange(0, 19) =~= "Connection failed: "@);
}

} // verus!
