//! The retrying fetch of one URL, as a state machine.
//!
//! The caller performs the I/O: it asks [`FetchUnit::begin_attempt`] before each
//! request, sends it, reports the outcome to [`FetchUnit::on_outcome`], and
//! sleeps for the delay that comes back before the next attempt. Only a
//! transport failure leads to a retry; any response, whatever its status,
//! ends the unit in success.

use backoff::backoff::Backoff;
use backoff::exponential::ExponentialBackoff;
use backoff::SystemClock;
use vstd::prelude::*;

use crate::diag::{got_line, got_text, requesting_line, requesting_text};

verus! {

#[verifier::external_type_specification]
#[verifier::external_body]
#[verifier::reject_recursive_types(C)]
pub struct ExExponentialBackoff<C>(ExponentialBackoff<C>);

#[verifier::external_type_specification]
#[verifier::external_body]
pub struct ExSystemClock(SystemClock);

/// The longest time, in milliseconds, during which a URL is retried,
/// counted from its first attempt.
pub const MAX_ELAPSED_MS: u64 = 300_000;

/// Relies on backoff's `ExponentialBackoff::default` for the initial interval,
/// multiplier, jitter and per-interval cap, with its start set to now; only the
/// total elapsed-time cap is replaced. Nothing is stated of the opaque value.
#[verifier::external_body]
fn create_backoff(max_elapsed_ms: u64) -> ExponentialBackoff<SystemClock> {
    ExponentialBackoff {
        max_elapsed_time: Some(std::time::Duration::from_millis(max_elapsed_ms)),
        ..ExponentialBackoff::default()
    }
}

/// Relies on backoff's `Backoff::next_backoff` for `ExponentialBackoff`: the next
/// jittered, growing delay in milliseconds, or none once its own elapsed-time cap
/// is spent. The value depends on the clock and on a random draw, so nothing is
/// stated of it.
#[verifier::external_body]
fn next_delay_ms(b: &mut ExponentialBackoff<SystemClock>) -> Option<u128> {
    match b.next_backoff() {
        Some(delay) => Some(delay.as_millis()),
        None => None,
    }
}

/// The delay before the next attempt, given the time spent since the first
/// attempt and the delay that the backoff policy proposes: the proposal is
/// taken while it keeps the next attempt within `budget`, otherwise the unit
/// gives up.
pub open spec fn retry_delay(elapsed: nat, proposed: Option<u128>, budget: nat) -> Option<u64> {
    match proposed {
        Some(d) => if elapsed + d <= budget {
            Some(d as u64)
        } else {
            None
        },
        None => None,
    }
}

/// Decides whether a failed attempt is retried, and after how long.
pub fn decide_retry(elapsed_ms: u64, proposed: Option<u128>, budget_ms: u64) -> (r: Option<u64>)
    ensures
        r == retry_delay(elapsed_ms as nat, proposed, budget_ms as nat),
{
    match proposed {
        Some(d) => {
            if elapsed_ms <= budget_ms && d <= (budget_ms - elapsed_ms) as u128 {
                Some(d as u64)
            } else {
                None
            }
        },
        None => None,
    }
}

/// Where a fetch unit stands.
#[derive(Clone, Copy, Debug, PartialEq, Eq, Structural)]
pub enum Phase {
    /// The next attempt may start.
    Ready,
    /// An attempt was started and its outcome is awaited.
    InFlight,
    /// An attempt got a response: terminal.
    Succeeded,
    /// The retry budget is spent: terminal.
    Exhausted,
}

/// What one attempt came to.
#[derive(Clone, Copy, Debug, PartialEq, Eq, Structural)]
pub enum Outcome {
    /// A response arrived, with this HTTP status.
    Response(u16),
    /// The exchange failed below HTTP (connection, DNS, TLS, timeout).
    TransportError,
}

/// What the caller does after reporting an outcome.
#[derive(Debug)]
pub enum Step {
    /// Print this line: the unit succeeded.
    Got(String),
    /// Sleep this many milliseconds, then start the next attempt.
    Retry(u64),
    /// Give up: the retry budget is spent.
    Exhausted,
}

/// The kind of a diagnostic line.
#[derive(Clone, Copy, Debug, PartialEq, Eq, Structural)]
pub enum LineKind {
    Requesting,
    Got,
}

/// A diagnostic line, as its kind and its stamp in milliseconds.
pub struct Line {
    pub kind: LineKind,
    pub stamp: nat,
}

/// The abstract state of a fetch unit.
pub struct UnitView {
    pub url: Seq<char>,
    /// Whether a first attempt was made.
    pub started: bool,
    /// Stamp of the first attempt.
    pub first: nat,
    /// The latest stamp seen.
    pub last: nat,
    pub phase: Phase,
    /// Attempts that failed in transport.
    pub failures: nat,
    /// The lines written so far, in order.
    pub log: Seq<Line>,
}

impl UnitView {
    /// How many lines a unit has written in `phase` after `failures` failed attempts.
    pub open spec fn expected_lines(phase: Phase, failures: nat) -> nat {
        match phase {
            Phase::Ready => failures,
            Phase::Exhausted => failures,
            Phase::InFlight => failures + 1,
            Phase::Succeeded => failures + 2,
        }
    }

    /// The kind of the line at `i`: every line is a request, but the one that
    /// closes a successful unit.
    pub open spec fn kind_at(self, i: int) -> LineKind {
        if self.phase == Phase::Succeeded && i == self.log.len() - 1 {
            LineKind::Got
        } else {
            LineKind::Requesting
        }
    }

    pub open spec fn wf(self) -> bool {
        &&& self.log.len() == Self::expected_lines(self.phase, self.failures)
        &&& forall|i: int| 0 <= i < self.log.len() ==> (#[trigger] self.log[i]).kind == self.kind_at(i)
        &&& forall|i: int, j: int|
            0 <= i <= j < self.log.len() ==> (#[trigger] self.log[i]).stamp <= (#[trigger] self.log[j]).stamp
        &&& forall|i: int| 0 <= i < self.log.len() ==> self.first <= (#[trigger] self.log[i]).stamp <= self.last
        &&& forall|i: int|
            0 <= i < self.log.len() && (#[trigger] self.log[i]).kind == LineKind::Requesting
                ==> self.log[i].stamp <= self.first + MAX_ELAPSED_MS
        &&& self.started == (self.log.len() > 0)
        &&& self.first <= self.last
    }

    /// The stamp given to an event observed at `now`: never earlier than one already given.
    pub open spec fn stamp_at(self, now: nat) -> nat {
        if now >= self.last { now } else { self.last }
    }

    /// Whether an attempt may start at stamp `t`.
    pub open spec fn may_begin(self, t: nat) -> bool {
        !self.started || t <= self.first + MAX_ELAPSED_MS
    }

    pub open spec fn after_begin(self, now: nat) -> UnitView {
        let t = self.stamp_at(now);
        if self.may_begin(t) {
            UnitView {
                started: true,
                first: if self.started { self.first } else { t },
                last: t,
                phase: Phase::InFlight,
                log: self.log.push(Line { kind: LineKind::Requesting, stamp: t }),
                ..self
            }
        } else {
            UnitView { last: t, phase: Phase::Exhausted, ..self }
        }
    }

    pub open spec fn after_response(self, now: nat) -> UnitView {
        let t = self.stamp_at(now);
        UnitView {
            last: t,
            phase: Phase::Succeeded,
            log: self.log.push(Line { kind: LineKind::Got, stamp: t }),
            ..self
        }
    }

    /// The state after `outcome` is reported at `now`; `retry` says whether a
    /// transport failure is retried.
    pub open spec fn after_outcome(self, outcome: Outcome, now: nat, retry: bool) -> UnitView {
        match outcome {
            Outcome::Response(_) => self.after_response(now),
            Outcome::TransportError => self.after_failure(now, retry),
        }
    }

    pub open spec fn after_failure(self, now: nat, retry: bool) -> UnitView {
        UnitView {
            last: self.stamp_at(now),
            failures: self.failures + 1,
            phase: if retry { Phase::Ready } else { Phase::Exhausted },
            ..self
        }
    }
}

/// The retrying fetch of one URL.
pub struct FetchUnit {
    url: String,
    backoff: ExponentialBackoff<SystemClock>,
    started: bool,
    first_ms: u64,
    last_ms: u64,
    phase: Phase,
    failures: Ghost<nat>,
    log: Ghost<Seq<Line>>,
}

impl View for FetchUnit {
    type V = UnitView;

    closed spec fn view(&self) -> UnitView {
        UnitView {
            url: self.url@,
            started: self.started,
            first: self.first_ms as nat,
            last: self.last_ms as nat,
            phase: self.phase,
            failures: self.failures@,
            log: self.log@,
        }
    }
}

impl FetchUnit {
    pub open spec fn wf(&self) -> bool {
        self@.wf()
    }

    /// A unit for `url`, ready for its first attempt, with a fresh backoff policy.
    pub fn new(url: String) -> (r: FetchUnit)
        ensures
            r.wf(),
            r@.url == url@,
            !r@.started,
            r@.first == 0,
            r@.last == 0,
            r@.phase == Phase::Ready,
            r@.failures == 0,
            r@.log.len() == 0,
    {
        FetchUnit {
            url,
            backoff: create_backoff(MAX_ELAPSED_MS),
            started: false,
            first_ms: 0,
            last_ms: 0,
            phase: Phase::Ready,
            failures: Ghost(0),
            log: Ghost(Seq::empty()),
        }
    }

    pub fn phase(&self) -> (r: Phase)
        ensures
            r == self@.phase,
    {
        self.phase
    }

    fn stamp(&self, now_ms: u64) -> (t: u64)
        ensures
            t as nat == self@.stamp_at(now_ms as nat),
    {
        if now_ms >= self.last_ms { now_ms } else { self.last_ms }
    }

    /// Starts an attempt observed at `now_ms` (milliseconds since the process
    /// started) and returns the line to write; or, when the attempt would fall
    /// after the retry budget counted from the first attempt, gives up and
    /// returns nothing.
    pub fn begin_attempt(&mut self, now_ms: u64) -> (r: Option<String>)
        requires
            old(self).wf(),
            old(self)@.phase == Phase::Ready,
        ensures
            final(self).wf(),
            final(self)@ == old(self)@.after_begin(now_ms as nat),
            ({
                let t = old(self)@.stamp_at(now_ms as nat);
                match r {
                    Some(line) => old(self)@.may_begin(t) && line@ == requesting_text(t, old(self)@.url),
                    None => !old(self)@.may_begin(t),
                }
            }),
    {
        let t = self.stamp(now_ms);
        if self.started && t - self.first_ms > MAX_ELAPSED_MS {
            self.last_ms = t;
            self.phase = Phase::Exhausted;
            return None;
        }
        if !self.started {
            self.first_ms = t;
            self.started = true;
        }
        self.last_ms = t;
        self.phase = Phase::InFlight;
        self.log = Ghost(self.log@.push(Line { kind: LineKind::Requesting, stamp: t as nat }));
        let line = requesting_line(t, self.url.as_str());
        proof {
            let v = self@;
            assert(v.log.last().stamp == t);
            assert forall|i: int| 0 <= i < v.log.len() implies (#[trigger] v.log[i]).kind == v.kind_at(i) by {
                if i < v.log.len() - 1 {
                    assert(v.log[i] == old(self)@.log[i]);
                }
            }
            assert forall|i: int, j: int|
                0 <= i <= j < v.log.len() implies (#[trigger] v.log[i]).stamp <= (#[trigger] v.log[j]).stamp by {
                if j < v.log.len() - 1 {
                    assert(v.log[i] == old(self)@.log[i]);
                    assert(v.log[j] == old(self)@.log[j]);
                } else if i < v.log.len() - 1 {
                    assert(v.log[i] == old(self)@.log[i]);
                }
            }
            assert forall|i: int| 0 <= i < v.log.len() implies v.first <= (#[trigger] v.log[i]).stamp <= v.last by {
                if i < v.log.len() - 1 {
                    assert(v.log[i] == old(self)@.log[i]);
                }
            }
            assert forall|i: int|
                0 <= i < v.log.len() && (#[trigger] v.log[i]).kind == LineKind::Requesting
                implies v.log[i].stamp <= v.first + MAX_ELAPSED_MS by {
                if i < v.log.len() - 1 {
                    assert(v.log[i] == old(self)@.log[i]);
                }
            }
            assert(v =~= old(self)@.after_begin(now_ms as nat));
        }
        Some(line)
    }

    /// Reports the outcome of the attempt in flight, observed at `now_ms`.
    /// A response of any status ends the unit in success and yields the line to
    /// write. A transport failure asks the backoff policy for a delay: the unit
    /// retries after it while the next attempt stays within the budget counted
    /// from the first attempt, and gives up otherwise.
    pub fn on_outcome(&mut self, outcome: Outcome, now_ms: u64) -> (r: Step)
        requires
            old(self).wf(),
            old(self)@.phase == Phase::InFlight,
        ensures
            final(self).wf(),
            ({
                let t = old(self)@.stamp_at(now_ms as nat);
                match outcome {
                    Outcome::Response(_) => {
                        &&& final(self)@ == old(self)@.after_outcome(outcome, now_ms as nat, false)
                        &&& r matches Step::Got(line) && line@ == got_text(t, old(self)@.url)
                    },
                    Outcome::TransportError => match r {
                        Step::Retry(d) => {
                            &&& final(self)@ == old(self)@.after_outcome(outcome, now_ms as nat, true)
                            &&& t + d <= old(self)@.first + MAX_ELAPSED_MS
                        },
                        Step::Exhausted => final(self)@ == old(self)@.after_outcome(outcome, now_ms as nat, false),
                        Step::Got(_) => false,
                    },
                }
            }),
    {
        let t = self.stamp(now_ms);
        let ghost old_v = self@;
        match outcome {
            Outcome::Response(_) => {
                self.last_ms = t;
                self.phase = Phase::Succeeded;
                self.log = Ghost(self.log@.push(Line { kind: LineKind::Got, stamp: t as nat }));
                let line = got_line(t, self.url.as_str());
                proof {
                    let v = self@;
                    assert forall|i: int| 0 <= i < v.log.len() implies (#[trigger] v.log[i]).kind == v.kind_at(i) by {
                        if i < v.log.len() - 1 {
                            assert(v.log[i] == old_v.log[i]);
                        }
                    }
                    assert forall|i: int, j: int|
                        0 <= i <= j < v.log.len() implies (#[trigger] v.log[i]).stamp <= (#[trigger] v.log[j]).stamp by {
                        if j < v.log.len() - 1 {
                            assert(v.log[i] == old_v.log[i]);
                            assert(v.log[j] == old_v.log[j]);
                        } else if i < v.log.len() - 1 {
                            assert(v.log[i] == old_v.log[i]);
                        }
                    }
                    assert forall|i: int| 0 <= i < v.log.len() implies v.first <= (#[trigger] v.log[i]).stamp <= v.last by {
                        if i < v.log.len() - 1 {
                            assert(v.log[i] == old_v.log[i]);
                        } else {
                            assert(old_v.log[0].stamp <= old_v.last);
                        }
                    }
                    assert forall|i: int|
                        0 <= i < v.log.len() && (#[trigger] v.log[i]).kind == LineKind::Requesting
                        implies v.log[i].stamp <= v.first + MAX_ELAPSED_MS by {
                        assert(v.log[i] == old_v.log[i]);
                    }
                    assert(v =~= old_v.after_response(now_ms as nat));
                }
                Step::Got(line)
            },
            Outcome::TransportError => {
                self.last_ms = t;
                self.failures = Ghost(self.failures@ + 1);
                let proposed = next_delay_ms(&mut self.backoff);
                match decide_retry(t - self.first_ms, proposed, MAX_ELAPSED_MS) {
                    Some(d) => {
                        self.phase = Phase::Ready;
                        assert(self@ =~= old_v.after_failure(now_ms as nat, true));
                        Step::Retry(d)
                    },
                    None => {
                        self.phase = Phase::Exhausted;
                        assert(self@ =~= old_v.after_failure(now_ms as nat, false));
                        Step::Exhausted
                    },
                }
            },
        }
    }
}

/// Retry bound: every attempt of a unit starts within the retry budget counted
/// from its first attempt; an attempt that would start later is not made, and
/// the unit then stands exhausted with no new line.
pub proof fn lemma_retry_bound(u: UnitView, now: nat)
    requires
        u.wf(),
    ensures
        forall|i: int|
            0 <= i < u.log.len() && (#[trigger] u.log[i]).kind == LineKind::Requesting
                ==> u.first <= u.log[i].stamp <= u.first + MAX_ELAPSED_MS,
        u.phase == Phase::Ready && u.started && now > u.first + MAX_ELAPSED_MS ==> {
            &&& u.after_begin(now).phase == Phase::Exhausted
            &&& u.after_begin(now).log == u.log
        },
{
}

/// A unit that succeeded after `failures` transport failures has written
/// exactly `failures + 1` requesting lines followed by exactly one got line.
pub proof fn lemma_success_lines(u: UnitView)
    requires
        u.wf(),
        u.phase == Phase::Succeeded,
    ensures
        u.log.len() == u.failures + 2,
        forall|i: int| 0 <= i <= u.failures ==> (#[trigger] u.log[i]).kind == LineKind::Requesting,
        u.log[u.failures + 1 as int].kind == LineKind::Got,
{
    assert forall|i: int| 0 <= i <= u.failures implies (#[trigger] u.log[i]).kind == LineKind::Requesting by {
        assert(u.log[i].kind == u.kind_at(i));
    }
    assert(u.log[u.failures + 1 as int].kind == u.kind_at(u.failures + 1 as int));
}

/// A response ends the unit in success whatever its status: two responses
/// that differ only in status lead to the same state.
pub proof fn lemma_status_ignored(u: UnitView, s1: u16, s2: u16, now: nat, retry: bool)
    ensures
        u.after_outcome(Outcome::Response(s1), now, retry) == u.after_outcome(Outcome::Response(s2), now, retry),
        u.after_outcome(Outcome::Response(s1), now, retry).phase == Phase::Succeeded,
{
}

/// The lines of a unit carry non-decreasing stamps, none later than the last
/// time the unit observed.
pub proof fn lemma_stamps_ordered(u: UnitView)
    requires
        u.wf(),
    ensures
        forall|i: int, j: int|
            0 <= i <= j < u.log.len() ==> (#[trigger] u.log[i]).stamp <= (#[trigger] u.log[j]).stamp,
        forall|i: int| 0 <= i < u.log.len() ==> (#[trigger] u.log[i]).stamp <= u.last,
{
}

} // verus!
