//! The decisions of a ping run as a state machine: the caller performs the
//! actions (probe, wait) and reports what happened as events.

use vstd::prelude::*;

use crate::stats::StatsCalculator;

verus! {

/// Where a session stands.
#[derive(Clone, Copy, Debug, PartialEq, Eq, Structural)]
pub enum Phase {
    /// About to start a round (or to finish): waits for a `Tick`.
    Ready,
    /// A probe is out: waits for its outcome.
    Probing,
    /// The run is over.
    Finished,
}

/// What the caller reports to the session.
#[derive(Clone, Copy, Debug, PartialEq, Eq, Structural)]
pub enum Event {
    /// The start of a round, with whether the user asked to stop.
    Tick { stop_requested: bool },
    /// The probe was answered after `latency_ns` nanoseconds.
    Reply { latency_ns: u64 },
    /// The probe got no answer.
    NoReply,
}

/// What the session asks the caller to do next.
#[derive(Clone, Copy, Debug, PartialEq, Eq, Structural)]
pub enum Action {
    /// Send probe number `seq` and report its outcome.
    Probe { seq: u32 },
    /// Wait `millis` milliseconds, then report a `Tick`.
    Wait { millis: u64 },
    /// Stop: the statistics are final.
    Finish,
}

/// The abstract state of a session.
pub struct SessionView {
    pub num_pings: nat,
    pub interval_ms: u64,
    /// Number of the next probe, counted from 1.
    pub next_seq: nat,
    pub phase: Phase,
    /// Latencies of the answered probes, in order.
    pub samples: Seq<u64>,
    /// Number of probes that got no answer.
    pub lost: nat,
}

/// The state of a new session for `num_pings` probes `interval_ms` apart.
pub open spec fn initial(num_pings: nat, interval_ms: u64) -> SessionView {
    SessionView {
        num_pings,
        interval_ms,
        next_seq: 1,
        phase: Phase::Ready,
        samples: Seq::empty(),
        lost: 0,
    }
}

/// The number of probes a session sends when left alone: the number asked
/// for, but no more than the statistics can count (`i32::MAX`).
pub open spec fn probe_limit(v: SessionView) -> nat {
    if v.num_pings > i32::MAX {
        i32::MAX as nat
    } else {
        v.num_pings
    }
}

/// Every probe sent has had its outcome recorded, except the one out, and no
/// more probes are sent than the limit.
pub open spec fn consistent(v: SessionView) -> bool {
    &&& 1 <= v.next_seq <= probe_limit(v) + 1
    &&& v.phase is Ready ==> v.samples.len() + v.lost == v.next_seq - 1
    &&& v.phase is Probing ==> v.next_seq <= probe_limit(v) && v.samples.len() + v.lost
        == v.next_seq - 1
    &&& v.phase is Finished ==> v.samples.len() + v.lost <= probe_limit(v)
}

/// The events a session in state `v` takes: a `Tick` when ready, an outcome
/// when a probe is out, nothing once finished.
pub open spec fn accepts(v: SessionView, e: Event) -> bool {
    match v.phase {
        Phase::Ready => e is Tick,
        Phase::Probing => e is Reply || e is NoReply,
        Phase::Finished => false,
    }
}

/// After the outcome of probe `next_seq` was recorded in `v`: wait and move
/// to the next probe, or finish after the last one.
pub open spec fn after_outcome(v: SessionView) -> (SessionView, Action) {
    if v.next_seq < probe_limit(v) {
        (
            SessionView { next_seq: v.next_seq + 1, phase: Phase::Ready, ..v },
            Action::Wait { millis: v.interval_ms },
        )
    } else {
        (SessionView { phase: Phase::Finished, ..v }, Action::Finish)
    }
}

/// One step of the session: the next state and the action asked for.
pub open spec fn transition(v: SessionView, e: Event) -> (SessionView, Action) {
    match e {
        Event::Tick { stop_requested } => {
            if stop_requested || v.next_seq > probe_limit(v) {
                (SessionView { phase: Phase::Finished, ..v }, Action::Finish)
            } else {
                (SessionView { phase: Phase::Probing, ..v }, Action::Probe { seq: v.next_seq as u32 })
            }
        },
        Event::Reply { latency_ns } => after_outcome(
            SessionView { samples: v.samples.push(latency_ns), ..v },
        ),
        Event::NoReply => after_outcome(SessionView { lost: v.lost + 1, ..v }),
    }
}

/// The outcome events among `o` are all replies or losses.
pub open spec fn all_outcomes(o: Seq<Event>) -> bool {
    forall|i: int| 0 <= i < o.len() ==> (#[trigger] o[i] is Reply || o[i] is NoReply)
}

/// The latencies of the replies among the outcomes `o`, in order.
pub open spec fn replies(o: Seq<Event>) -> Seq<u64>
    decreases o.len(),
{
    if o.len() == 0 {
        Seq::empty()
    } else {
        match o[0] {
            Event::Reply { latency_ns } => seq![latency_ns] + replies(o.drop_first()),
            _ => replies(o.drop_first()),
        }
    }
}

/// The number of losses among the outcomes `o`.
pub open spec fn losses(o: Seq<Event>) -> nat
    decreases o.len(),
{
    if o.len() == 0 {
        0
    } else {
        match o[0] {
            Event::NoReply => 1 + losses(o.drop_first()),
            _ => losses(o.drop_first()),
        }
    }
}

/// Runs a session from `v` without stop requests: each round a `Tick`, then,
/// when a probe is asked for, the next of `outcomes`. The final state and
/// every action asked for, in order.
pub open spec fn run_uninterrupted(v: SessionView, outcomes: Seq<Event>) -> (
    SessionView,
    Seq<Action>,
)
    decreases outcomes.len(),
{
    if !(v.phase is Ready) {
        (v, Seq::empty())
    } else {
        let (v1, a1) = transition(v, Event::Tick { stop_requested: false });
        if !(v1.phase is Probing) || outcomes.len() == 0 {
            (v1, seq![a1])
        } else {
            let (v2, a2) = transition(v1, outcomes[0]);
            let (v3, rest) = run_uninterrupted(v2, outcomes.drop_first());
            (v3, seq![a1, a2] + rest)
        }
    }
}

/// The actions of an uninterrupted run from probe `k` to probe `n`: each
/// probe in turn, a wait between two probes, none after the last, then the
/// end.
pub open spec fn schedule(k: nat, n: nat, interval_ms: u64) -> Seq<Action>
    decreases n - k,
{
    if k > n {
        seq![Action::Finish]
    } else if k == n {
        seq![Action::Probe { seq: k as u32 }, Action::Finish]
    } else {
        seq![Action::Probe { seq: k as u32 }, Action::Wait { millis: interval_ms }] + schedule(
            (k + 1) as nat,
            n,
            interval_ms,
        )
    }
}

/// The shape of a schedule from probe `k` to probe `n`: probe `k + i / 2` at
/// each even place `i`, a wait of `interval_ms` after each probe but the
/// last, and the end after the last; just the end when there is no probe to
/// send.
pub proof fn law_schedule_shape(k: nat, n: nat, interval_ms: u64)
    requires
        k >= 1,
    ensures
        k > n ==> schedule(k, n, interval_ms) == seq![Action::Finish],
        k <= n ==> ({
            let s = schedule(k, n, interval_ms);
            let m = n - k + 1;
            &&& s.len() == 2 * m
            &&& forall|i: int|
                0 <= i < 2 * m && i % 2 == 0 ==> #[trigger] s[i] == Action::Probe {
                    seq: (k + i / 2) as u32,
                }
            &&& forall|i: int|
                0 <= i < 2 * m - 1 && i % 2 == 1 ==> #[trigger] s[i] == Action::Wait {
                    millis: interval_ms,
                }
            &&& s[2 * m - 1] == Action::Finish
        }),
    decreases n - k,
{
    if k < n {
        law_schedule_shape(k + 1, n, interval_ms);
        let s = schedule(k, n, interval_ms);
        let r = schedule((k + 1) as nat, n, interval_ms);
        let head = seq![Action::Probe { seq: k as u32 }, Action::Wait { millis: interval_ms }];
        assert(s == head + r);
        let m = n - k + 1;
        assert forall|i: int| 0 <= i < 2 * m && i % 2 == 0 implies #[trigger] s[i]
            == Action::Probe { seq: (k + i / 2) as u32 } by {
            if i >= 2 {
                assert(s[i] == r[i - 2]);
                assert((i - 2) / 2 == i / 2 - 1);
            }
        }
        assert forall|i: int| 0 <= i < 2 * m - 1 && i % 2 == 1 implies #[trigger] s[i]
            == Action::Wait { millis: interval_ms } by {
            if i >= 2 {
                assert(s[i] == r[i - 2]);
            }
        }
        assert(s[2 * m - 1] == r[2 * (m - 1) - 1]);
    }
}

/// A new session is consistent: nothing sent, nothing recorded.
pub proof fn law_new_session_consistent(num_pings: nat, interval_ms: u64)
    ensures
        consistent(initial(num_pings, interval_ms)),
{
}

/// Each step a session takes keeps it consistent: every probe sent has its
/// outcome recorded exactly once, and no more probes are sent than the
/// limit.
pub proof fn law_steps_keep_consistency(v: SessionView, e: Event)
    requires
        consistent(v),
        accepts(v, e),
    ensures
        consistent(transition(v, e).0),
{
}

/// A stop request ends a ready session at once, whatever number of probes
/// was asked for: nothing more is probed, and the statistics hold the
/// outcomes of exactly the probes sent so far.
pub proof fn law_stop_request_finishes(v: SessionView)
    requires
        consistent(v),
        v.phase is Ready,
    ensures
        transition(v, Event::Tick { stop_requested: true }) == (
            SessionView { phase: Phase::Finished, ..v },
            Action::Finish,
        ),
        v.samples.len() + v.lost == v.next_seq - 1,
{
}

/// Left alone, a session for `num_pings` probes sends exactly that many (up
/// to `i32::MAX`, the most its statistics count), numbered from 1, with a
/// wait between two of them and none after the last; it then finishes with
/// every reply recorded as a sample, in order, and every other outcome
/// counted as lost.
pub proof fn law_uninterrupted_run(num_pings: nat, interval_ms: u64, outcomes: Seq<Event>)
    requires
        outcomes.len() == probe_limit(initial(num_pings, interval_ms)),
        all_outcomes(outcomes),
    ensures
        ({
            let (end, actions) = run_uninterrupted(initial(num_pings, interval_ms), outcomes);
            let limit = probe_limit(initial(num_pings, interval_ms));
            &&& end.phase is Finished
            &&& end.samples == replies(outcomes)
            &&& end.lost == losses(outcomes)
            &&& end.samples.len() + end.lost == limit
            &&& actions == schedule(1, limit, interval_ms)
            &&& num_pings <= i32::MAX ==> limit == num_pings && end.samples.len() + end.lost
                == num_pings && actions == schedule(1, num_pings, interval_ms)
            &&& num_pings > i32::MAX ==> limit == i32::MAX
        }),
{
    lemma_run_from(initial(num_pings, interval_ms), outcomes);
    assert(Seq::<u64>::empty() + replies(outcomes) == replies(outcomes));
}

proof fn lemma_run_from(v: SessionView, outcomes: Seq<Event>)
    requires
        consistent(v),
        v.phase is Ready,
        outcomes.len() + v.next_seq == probe_limit(v) + 1,
        all_outcomes(outcomes),
    ensures
        ({
            let (end, actions) = run_uninterrupted(v, outcomes);
            &&& end.phase is Finished
            &&& end.samples == v.samples + replies(outcomes)
            &&& end.lost == v.lost + losses(outcomes)
            &&& end.samples.len() + end.lost == probe_limit(v)
            &&& actions == schedule(v.next_seq, probe_limit(v), v.interval_ms)
        }),
    decreases outcomes.len(),
{
    let (v1, a1) = transition(v, Event::Tick { stop_requested: false });
    if outcomes.len() == 0 {
        assert(v.samples + replies(outcomes) == v.samples);
    } else {
        let e = outcomes[0];
        assert(e is Reply || e is NoReply);
        let (v2, a2) = transition(v1, e);
        let rest = outcomes.drop_first();
        assert forall|i: int| 0 <= i < rest.len() implies (#[trigger] rest[i] is Reply
            || rest[i] is NoReply) by {
            assert(rest[i] == outcomes[i + 1]);
        }
        if v.next_seq < probe_limit(v) {
            lemma_run_from(v2, rest);
        } else {
            assert(rest.len() == 0);
            assert(replies(rest) == Seq::<u64>::empty());
        }
        match e {
            Event::Reply { latency_ns } => {
                assert(v.samples.push(latency_ns) + replies(rest) == v.samples + (seq![latency_ns]
                    + replies(rest)));
            },
            _ => {},
        }
    }
}

/// A ping run in progress.
pub struct PingSession {
    num_pings: u32,
    interval_ms: u64,
    next_seq: u32,
    phase: Phase,
    stats: StatsCalculator,
}

impl View for PingSession {
    type V = SessionView;

    closed spec fn view(&self) -> SessionView {
        SessionView {
            num_pings: self.num_pings as nat,
            interval_ms: self.interval_ms,
            next_seq: self.next_seq as nat,
            phase: self.phase,
            samples: self.stats.samples(),
            lost: self.stats.lost(),
        }
    }
}

impl PingSession {
    /// The session is in a state its own steps can reach.
    pub open spec fn wf(&self) -> bool {
        consistent(self@)
    }

    /// A session for `num_pings` probes `interval_ms` milliseconds apart.
    pub fn new(num_pings: u32, interval_ms: u64) -> (session: Self)
        ensures
            session@ == initial(num_pings as nat, interval_ms),
            session.wf(),
    {
        PingSession {
            num_pings,
            interval_ms,
            next_seq: 1,
            phase: Phase::Ready,
            stats: StatsCalculator::new(),
        }
    }

    /// Whether the session takes `event` now.
    pub fn accepts(&self, event: &Event) -> (ok: bool)
        ensures
            ok == accepts(self@, *event),
    {
        match self.phase {
            Phase::Ready => matches!(event, Event::Tick { .. }),
            Phase::Probing => !matches!(event, Event::Tick { .. }),
            Phase::Finished => false,
        }
    }

    /// Whether the run is over.
    pub fn is_finished(&self) -> (done: bool)
        ensures
            done == (self@.phase is Finished),
    {
        matches!(self.phase, Phase::Finished)
    }

    /// The statistics recorded so far.
    pub fn stats(&self) -> (stats: &StatsCalculator)
        ensures
            stats.samples() == self@.samples,
            stats.lost() == self@.lost,
    {
        &self.stats
    }

    /// Takes the next event and says what to do.
    pub fn step(&mut self, event: Event) -> (action: Action)
        requires
            old(self).wf(),
            accepts(old(self)@, event),
        ensures
            final(self).wf(),
            (final(self)@, action) == transition(old(self)@, event),
    {
        match event {
            Event::Tick { stop_requested } => {
                if stop_requested || self.next_seq > self.limit() {
                    self.phase = Phase::Finished;
                    Action::Finish
                } else {
                    self.phase = Phase::Probing;
                    Action::Probe { seq: self.next_seq }
                }
            },
            Event::Reply { latency_ns } => {
                self.stats.add(latency_ns);
                self.after_outcome()
            },
            Event::NoReply => {
                self.stats.add_loss();
                self.after_outcome()
            },
        }
    }

    /// The number of probes the session sends when left alone.
    fn limit(&self) -> (n: u32)
        ensures
            n == probe_limit(self@),
    {
        if self.num_pings > 0x7fff_ffff {
            0x7fff_ffff
        } else {
            self.num_pings
        }
    }

    fn after_outcome(&mut self) -> (action: Action)
        requires
            old(self).phase is Probing,
            1 <= old(self)@.next_seq <= probe_limit(old(self)@),
            old(self)@.samples.len() + old(self)@.lost == old(self)@.next_seq,
        ensures
            final(self).wf(),
            (final(self)@, action) == after_outcome(old(self)@),
    {
        if self.next_seq < self.limit() {
            self.next_seq = self.next_seq + 1;
            self.phase = Phase::Ready;
            Action::Wait { millis: self.interval_ms }
        } else {
            self.phase = Phase::Finished;
            Action::Finish
        }
    }
}

} // verus!
