//! The server's own health: counters every handler bumps, a snapshot of
//! them, and the problems a snapshot shows.
use vstd::prelude::*;

use crate::clock::{nanos_between, Moment, MAX_INSTANT_S, MIN_INSTANT_S, NANOS_PER_SECOND};
use crate::text::{decimal, push_decimal};
use vstd::string::StringExecFns;

verus! {

/// Seconds without an accepted ingest call before ingest counts as stalled.
pub const INGEST_STALL_S: i64 = 15 * 60;

/// Seconds without a finished detection pass before the detector counts as stuck.
pub const DETECTOR_STALL_S: i64 = 3 * 60;

/// Share of refused ingest calls, in percent, above which refusals are a problem.
pub const REJECTION_PERCENT: u64 = 33;

/// Fewest ingest calls over which a refusal rate means anything.
pub const MIN_CALLS_FOR_RATE: u64 = 20;

/// Live counters, shared by every handler. Counters wrap as the atomic
/// counters they stand for do; instants are Unix seconds, zero for never.
#[derive(Debug, Clone, Copy, PartialEq, Eq, Structural)]
pub struct Metrics {
    pub measurements_accepted: u64,
    pub health_accepted: u64,
    pub registrations: u64,
    pub ingest_rejected: u64,
    pub ingest_failed: u64,
    pub last_ingest_at: i64,
    pub last_detection_at: i64,
    pub last_maintenance_at: i64,
    pub alarms_raised: u64,
    pub http_requests: u64,
    pub http_server_errors: u64,
    /// Total time spent in HTTP handlers, in microseconds.
    pub http_micros: u64,
    /// Longest single HTTP handler, in microseconds.
    pub http_slowest_micros: u64,
}

/// `count + by`, wrapping as an atomic counter does.
pub open spec fn bumped(count: u64, by: u64) -> u64 {
    if count + by > u64::MAX {
        (count + by - u64::MAX - 1) as u64
    } else {
        (count + by) as u64
    }
}

impl Metrics {
    /// A fresh set of counters: everything zero, nothing stamped.
    pub fn new() -> (metrics: Self)
        ensures
            metrics == (Metrics {
                measurements_accepted: 0,
                health_accepted: 0,
                registrations: 0,
                ingest_rejected: 0,
                ingest_failed: 0,
                last_ingest_at: 0,
                last_detection_at: 0,
                last_maintenance_at: 0,
                alarms_raised: 0,
                http_requests: 0,
                http_server_errors: 0,
                http_micros: 0,
                http_slowest_micros: 0,
            }),
    {
        Metrics {
            measurements_accepted: 0,
            health_accepted: 0,
            registrations: 0,
            ingest_rejected: 0,
            ingest_failed: 0,
            last_ingest_at: 0,
            last_detection_at: 0,
            last_maintenance_at: 0,
            alarms_raised: 0,
            http_requests: 0,
            http_server_errors: 0,
            http_micros: 0,
            http_slowest_micros: 0,
        }
    }

    /// Record an accepted measurement report at `now_s`.
    pub fn measurement_accepted(&mut self, now_s: i64)
        ensures
            *final(self) == (Metrics {
                measurements_accepted: bumped(old(self).measurements_accepted, 1),
                last_ingest_at: now_s,
                ..*old(self)
            }),
    {
        self.measurements_accepted = self.measurements_accepted.wrapping_add(1);
        self.last_ingest_at = now_s;
    }

    /// Record an accepted health report at `now_s`.
    pub fn health_accepted(&mut self, now_s: i64)
        ensures
            *final(self) == (Metrics {
                health_accepted: bumped(old(self).health_accepted, 1),
                last_ingest_at: now_s,
                ..*old(self)
            }),
    {
        self.health_accepted = self.health_accepted.wrapping_add(1);
        self.last_ingest_at = now_s;
    }

    /// Record a node registration at `now_s`.
    pub fn registered(&mut self, now_s: i64)
        ensures
            *final(self) == (Metrics {
                registrations: bumped(old(self).registrations, 1),
                last_ingest_at: now_s,
                ..*old(self)
            }),
    {
        self.registrations = self.registrations.wrapping_add(1);
        self.last_ingest_at = now_s;
    }

    /// Record an ingest call the caller could have made correctly.
    pub fn ingest_rejected(&mut self)
        ensures
            *final(self) == (Metrics {
                ingest_rejected: bumped(old(self).ingest_rejected, 1),
                ..*old(self)
            }),
    {
        self.ingest_rejected = self.ingest_rejected.wrapping_add(1);
    }

    /// Record an ingest call that failed inside the server.
    pub fn ingest_failed(&mut self)
        ensures
            *final(self) == (Metrics { ingest_failed: bumped(old(self).ingest_failed, 1), ..*old(self) }),
    {
        self.ingest_failed = self.ingest_failed.wrapping_add(1);
    }

    /// Record a detection pass finished at `now_s` and how many alarms it raised.
    pub fn detection_finished(&mut self, raised: usize, now_s: i64)
        ensures
            *final(self) == (Metrics {
                last_detection_at: now_s,
                alarms_raised: bumped(old(self).alarms_raised, raised as u64),
                ..*old(self)
            }),
    {
        self.last_detection_at = now_s;
        self.alarms_raised = self.alarms_raised.wrapping_add(raised as u64);
    }

    /// Record a maintenance pass finished at `now_s`.
    pub fn maintenance_finished(&mut self, now_s: i64)
        ensures
            *final(self) == (Metrics { last_maintenance_at: now_s, ..*old(self) }),
    {
        self.last_maintenance_at = now_s;
    }

    /// Record one served HTTP request that took `micros` and answered `status`.
    pub fn http_served(&mut self, micros: u64, status: u16)
        ensures
            *final(self) == (Metrics {
                http_requests: bumped(old(self).http_requests, 1),
                http_micros: bumped(old(self).http_micros, micros),
                http_slowest_micros: if micros > old(self).http_slowest_micros {
                    micros
                } else {
                    old(self).http_slowest_micros
                },
                http_server_errors: if status >= 500 {
                    bumped(old(self).http_server_errors, 1)
                } else {
                    old(self).http_server_errors
                },
                ..*old(self)
            }),
    {
        self.http_requests = self.http_requests.wrapping_add(1);
        self.http_micros = self.http_micros.wrapping_add(micros);
        if micros > self.http_slowest_micros {
            self.http_slowest_micros = micros;
        }
        if status >= 500 {
            self.http_server_errors = self.http_server_errors.wrapping_add(1);
        }
    }

    /// One reading of every counter, plus the connection pool's own state.
    pub fn snapshot(&self, pool_size: usize, pool_available: usize, pool_waiting: usize) -> (snapshot: Snapshot)
        ensures
            snapshot == (Snapshot {
                measurements_accepted: self.measurements_accepted,
                health_accepted: self.health_accepted,
                registrations: self.registrations,
                ingest_rejected: self.ingest_rejected,
                ingest_failed: self.ingest_failed,
                last_ingest_at: instant_of(self.last_ingest_at),
                last_detection_at: instant_of(self.last_detection_at),
                last_maintenance_at: instant_of(self.last_maintenance_at),
                alarms_raised: self.alarms_raised,
                http_requests: self.http_requests,
                http_server_errors: self.http_server_errors,
                http_mean_micros: if self.http_requests == 0 {
                    0
                } else {
                    (self.http_micros / self.http_requests) as u64
                },
                http_slowest_micros: self.http_slowest_micros,
                pool_size,
                pool_available,
                pool_waiting,
            }),
            snapshot.well_dated(),
    {
        Snapshot {
            measurements_accepted: self.measurements_accepted,
            health_accepted: self.health_accepted,
            registrations: self.registrations,
            ingest_rejected: self.ingest_rejected,
            ingest_failed: self.ingest_failed,
            last_ingest_at: instant(self.last_ingest_at),
            last_detection_at: instant(self.last_detection_at),
            last_maintenance_at: instant(self.last_maintenance_at),
            alarms_raised: self.alarms_raised,
            http_requests: self.http_requests,
            http_server_errors: self.http_server_errors,
            http_mean_micros: mean(self.http_micros, self.http_requests),
            http_slowest_micros: self.http_slowest_micros,
            pool_size,
            pool_available,
            pool_waiting,
        }
    }
}

/// A stamped instant, or `None` for the zero that means never, and for an
/// instant outside the representable range.
pub open spec fn instant_of(seconds: i64) -> Option<i64> {
    if seconds == 0 || seconds < MIN_INSTANT_S || seconds > MAX_INSTANT_S {
        None
    } else {
        Some(seconds)
    }
}

/// A stamped instant, or `None` when it was never stamped.
pub fn instant(seconds: i64) -> (at: Option<i64>)
    ensures
        at == instant_of(seconds),
{
    if seconds == 0 || seconds < MIN_INSTANT_S || seconds > MAX_INSTANT_S {
        None
    } else {
        Some(seconds)
    }
}

/// `total / count`, or zero for a count of zero.
pub fn mean(total: u64, count: u64) -> (average: u64)
    ensures
        average == if count == 0 {
            0
        } else {
            total / count
        },
{
    match total.checked_div(count) {
        Some(average) => average,
        None => 0,
    }
}

/// One reading of every counter, plus the pool's own state. Instants are
/// Unix seconds.
#[derive(Debug, Clone, Copy, PartialEq, Eq, Structural)]
pub struct Snapshot {
    pub measurements_accepted: u64,
    pub health_accepted: u64,
    pub registrations: u64,
    pub ingest_rejected: u64,
    pub ingest_failed: u64,
    pub last_ingest_at: Option<i64>,
    pub last_detection_at: Option<i64>,
    pub last_maintenance_at: Option<i64>,
    pub alarms_raised: u64,
    pub http_requests: u64,
    pub http_server_errors: u64,
    /// Mean handler time in microseconds, over every request since start.
    pub http_mean_micros: u64,
    pub http_slowest_micros: u64,
    pub pool_size: usize,
    pub pool_available: usize,
    pub pool_waiting: usize,
}

/// Something wrong that a snapshot shows.
#[derive(Debug, Clone, Copy, PartialEq, Eq, Structural)]
pub enum Problem {
    /// Nodes exist but ingest has accepted nothing since the server started.
    IngestNeverAccepted,
    /// Ingest last accepted a call at `at`, more than [`INGEST_STALL_S`] ago.
    IngestStalled { at: i64 },
    /// The detector last finished a pass at `at`, more than [`DETECTOR_STALL_S`] ago.
    DetectorStalled { at: i64 },
    /// `refused` of `calls` ingest calls were refused or failed.
    Refused { refused: u64, calls: u64 },
    /// Every ingest call has failed inside the server.
    EveryCallFailed,
}

/// How chrono writes the instant `seconds` after the Unix epoch as a naive
/// UTC date and time, such as `2015-05-15 00:00:00`.
pub uninterp spec fn utc_text(seconds: i64) -> Seq<char>;

/// `DateTime::from_timestamp(seconds, 0)`, written as its naive UTC date and
/// time. Every second in the representable range has such a date and time.
#[verifier::external_body]
fn naive_utc_text(seconds: i64) -> (text: String)
    requires
        MIN_INSTANT_S <= seconds <= MAX_INSTANT_S,
    ensures
        text@ == utc_text(seconds),
{
    match chrono::DateTime::from_timestamp(seconds, 0) {
        Some(at) => at.naive_utc().to_string(),
        None => String::new(),
    }
}

impl Problem {
    /// Whether the instant a stall names lies in the representable range.
    pub open spec fn well_dated(self) -> bool {
        match self {
            Problem::IngestStalled { at } => MIN_INSTANT_S <= at <= MAX_INSTANT_S,
            Problem::DetectorStalled { at } => MIN_INSTANT_S <= at <= MAX_INSTANT_S,
            _ => true,
        }
    }

    /// The line an operator reads for this problem; none for refusals,
    /// whose percentage is a floating-point rounding of their share.
    pub open spec fn words(self) -> Option<Seq<char>> {
        match self {
            Problem::IngestNeverAccepted => Some(
                "ingest has accepted nothing since the server started"@,
            ),
            Problem::IngestStalled { at } => Some(
                "ingest has accepted nothing since "@ + utc_text(at) + ", which is more than "@
                    + decimal((INGEST_STALL_S / 60) as nat) + " minutes"@,
            ),
            Problem::DetectorStalled { at } => Some(
                "the detector last finished a pass at "@ + utc_text(at),
            ),
            Problem::Refused { .. } => None,
            Problem::EveryCallFailed => Some("every ingest call has failed inside the server"@),
        }
    }

    /// The line an operator reads for this problem, as [`Problem::words`] says.
    pub fn message(&self) -> (text: Option<String>)
        requires
            self.well_dated(),
        ensures
            match self.words() {
                Some(words) => text matches Some(line) && line@ == words,
                None => text is None,
            },
    {
        match self {
            Problem::IngestNeverAccepted => Some(
                String::from_str("ingest has accepted nothing since the server started"),
            ),
            Problem::IngestStalled { at } => {
                let mut line = String::from_str("ingest has accepted nothing since ");
                let when = naive_utc_text(*at);
                line.append(when.as_str());
                line.append(", which is more than ");
                push_decimal(&mut line, (INGEST_STALL_S / 60) as u64);
                line.append(" minutes");
                Some(line)
            },
            Problem::DetectorStalled { at } => {
                let mut line = String::from_str("the detector last finished a pass at ");
                let when = naive_utc_text(*at);
                line.append(when.as_str());
                Some(line)
            },
            Problem::Refused { .. } => None,
            Problem::EveryCallFailed => Some(
                String::from_str("every ingest call has failed inside the server"),
            ),
        }
    }
}

/// `a + b`, saturating at `u64::MAX`.
pub open spec fn capped_sum(a: int, b: int) -> int {
    if a + b > u64::MAX {
        u64::MAX as int
    } else {
        a + b
    }
}

/// A count as a ratio operand: capped at `u32::MAX`.
pub open spec fn capped(count: u64) -> int {
    if count > u32::MAX {
        u32::MAX as int
    } else {
        count as int
    }
}

impl Snapshot {
    /// Whether every instant the snapshot holds lies in the representable
    /// range, as those of [`Metrics::snapshot`] do.
    pub open spec fn well_dated(&self) -> bool {
        &&& (self.last_ingest_at matches Some(at) ==> MIN_INSTANT_S <= at <= MAX_INSTANT_S)
        &&& (self.last_detection_at matches Some(at) ==> MIN_INSTANT_S <= at <= MAX_INSTANT_S)
        &&& (self.last_maintenance_at matches Some(at) ==> MIN_INSTANT_S <= at <= MAX_INSTANT_S)
    }

    /// Every ingest call counted, saturating.
    pub open spec fn calls(&self) -> int {
        capped_sum(
            capped_sum(
                capped_sum(
                    capped_sum(self.measurements_accepted as int, self.health_accepted as int),
                    self.registrations as int,
                ),
                self.ingest_rejected as int,
            ),
            self.ingest_failed as int,
        )
    }

    /// The calls that were refused or failed, saturating.
    pub open spec fn refused(&self) -> int {
        capped_sum(self.ingest_rejected as int, self.ingest_failed as int)
    }

    /// The problems a snapshot taken at `now` shows, in the order they are
    /// reported. A stall is an elapsed time, to the nanosecond, strictly
    /// greater than its limit;
    /// the refusal rate is judged once [`MIN_CALLS_FOR_RATE`] calls are in,
    /// on counts capped at `u32::MAX`, as more than [`REJECTION_PERCENT`] percent.
    pub open spec fn shows(&self, now: Moment, fleet_size: u64) -> Seq<Problem> {
        let ingest: Seq<Problem> = if fleet_size > 0 {
            match self.last_ingest_at {
                None => seq![Problem::IngestNeverAccepted],
                Some(at) => if stalled(now, at, INGEST_STALL_S) {
                    seq![Problem::IngestStalled { at }]
                } else {
                    seq![]
                },
            }
        } else {
            seq![]
        };
        let detector: Seq<Problem> = match self.last_detection_at {
            Some(at) => if stalled(now, at, DETECTOR_STALL_S) {
                seq![Problem::DetectorStalled { at }]
            } else {
                seq![]
            },
            None => seq![],
        };
        let refusals: Seq<Problem> = if self.calls() >= MIN_CALLS_FOR_RATE && 100 * capped(
            self.refused() as u64,
        ) > REJECTION_PERCENT * capped(self.calls() as u64) {
            seq![Problem::Refused { refused: self.refused() as u64, calls: self.calls() as u64 }]
        } else {
            seq![]
        };
        let failing: Seq<Problem> = if self.ingest_failed > 0 && self.measurements_accepted == 0 {
            seq![Problem::EveryCallFailed]
        } else {
            seq![]
        };
        ingest + detector + refusals + failing
    }

    /// A snapshot whose instants are in range shows only problems whose
    /// instants are.
    pub proof fn lemma_shows_well_dated(&self, now: Moment, fleet_size: u64)
        requires
            self.well_dated(),
        ensures
            forall|i: int|
                0 <= i < self.shows(now, fleet_size).len() ==> (#[trigger] self.shows(
                    now,
                    fleet_size,
                )[i]).well_dated(),
    {
        let shown = self.shows(now, fleet_size);
        assert forall|i: int| 0 <= i < shown.len() implies (#[trigger] shown[i]).well_dated() by {
            match shown[i] {
                Problem::IngestStalled { at } => {},
                Problem::DetectorStalled { at } => {},
                _ => {},
            }
        }
    }

    /// The other problems a snapshot shows: with nodes in the fleet, ingest
    /// that never accepted anything, or that last accepted a call more than
    /// fifteen minutes (900 seconds, to the nanosecond) ago; a detector that
    /// last finished more than three minutes (180 seconds) ago; and every
    /// call failing inside the server when calls failed and no measurement
    /// was accepted. Each shows exactly then.
    pub proof fn lemma_stalls_and_failures(&self, now: Moment, fleet_size: u64)
        ensures
            self.shows(now, fleet_size).contains(Problem::IngestNeverAccepted) <==> (fleet_size > 0
                && self.last_ingest_at is None),
            forall|at: i64|
                #[trigger] self.shows(now, fleet_size).contains(Problem::IngestStalled { at }) <==> (
                fleet_size > 0 && self.last_ingest_at == Some(at) && now.since_epoch() - at
                    * 1_000_000_000 > 900 * 1_000_000_000),
            forall|at: i64|
                #[trigger] self.shows(now, fleet_size).contains(Problem::DetectorStalled { at }) <==> (
                self.last_detection_at == Some(at) && now.since_epoch() - at * 1_000_000_000 > 180
                    * 1_000_000_000),
            self.shows(now, fleet_size).contains(Problem::EveryCallFailed) <==> (self.ingest_failed
                > 0 && self.measurements_accepted == 0),
    {
        let shown = self.shows(now, fleet_size);
        let ingest: Seq<Problem> = if fleet_size > 0 {
            match self.last_ingest_at {
                None => seq![Problem::IngestNeverAccepted],
                Some(at) => if stalled(now, at, INGEST_STALL_S) {
                    seq![Problem::IngestStalled { at }]
                } else {
                    seq![]
                },
            }
        } else {
            seq![]
        };
        let detector: Seq<Problem> = match self.last_detection_at {
            Some(at) => if stalled(now, at, DETECTOR_STALL_S) {
                seq![Problem::DetectorStalled { at }]
            } else {
                seq![]
            },
            None => seq![],
        };
        let refusals: Seq<Problem> = if self.calls() >= MIN_CALLS_FOR_RATE && 100 * capped(
            self.refused() as u64,
        ) > REJECTION_PERCENT * capped(self.calls() as u64) {
            seq![Problem::Refused { refused: self.refused() as u64, calls: self.calls() as u64 }]
        } else {
            seq![]
        };
        let failing: Seq<Problem> = if self.ingest_failed > 0 && self.measurements_accepted == 0 {
            seq![Problem::EveryCallFailed]
        } else {
            seq![]
        };
        assert(shown == ingest + detector + refusals + failing);
        let a = ingest.len() as int;
        let b = a + detector.len();
        let c = b + refusals.len();
        assert forall|p: Problem| #[trigger] shown.contains(p) <==> (ingest.contains(p)
            || detector.contains(p) || refusals.contains(p) || failing.contains(p)) by {
            if shown.contains(p) {
                let i = choose|i: int| 0 <= i < shown.len() && shown[i] == p;
                if i < a {
                    assert(ingest[i] == p);
                } else if i < b {
                    assert(detector[i - a] == p);
                } else if i < c {
                    assert(refusals[i - b] == p);
                } else {
                    assert(failing[i - c] == p);
                }
            }
            if ingest.contains(p) {
                let i = choose|i: int| 0 <= i < ingest.len() && ingest[i] == p;
                assert(shown[i] == p);
            }
            if detector.contains(p) {
                let i = choose|i: int| 0 <= i < detector.len() && detector[i] == p;
                assert(shown[a + i] == p);
            }
            if refusals.contains(p) {
                let i = choose|i: int| 0 <= i < refusals.len() && refusals[i] == p;
                assert(shown[b + i] == p);
            }
            if failing.contains(p) {
                let i = choose|i: int| 0 <= i < failing.len() && failing[i] == p;
                assert(shown[c + i] == p);
            }
        }
        if fleet_size > 0 && self.last_ingest_at is None {
            assert(ingest[0] == Problem::IngestNeverAccepted);
        }
        if self.ingest_failed > 0 && self.measurements_accepted == 0 {
            assert(failing[0] == Problem::EveryCallFailed);
        }
        match self.last_ingest_at {
            Some(at) => if fleet_size > 0 && stalled(now, at, INGEST_STALL_S) {
                assert(ingest[0] == Problem::IngestStalled { at });
            },
            None => {},
        }
        match self.last_detection_at {
            Some(at) => if stalled(now, at, DETECTOR_STALL_S) {
                assert(detector[0] == Problem::DetectorStalled { at });
            },
            None => {},
        }
    }

    /// The refusal rate counts refused and failed calls together, over
    /// every ingest call: with counts far below the caps, once at least
    /// [`MIN_CALLS_FOR_RATE`] calls are in and refused plus failed calls are
    /// more than a third of them (33 percent), the snapshot shows that
    /// problem, with those two numbers, and so the server is not healthy; at
    /// or below that share it shows no refusal problem.
    pub proof fn lemma_refusals_count_failures(&self, now: Moment, fleet_size: u64)
        requires
            self.measurements_accepted <= 100_000_000,
            self.health_accepted <= 100_000_000,
            self.registrations <= 100_000_000,
            self.ingest_rejected <= 100_000_000,
            self.ingest_failed <= 100_000_000,
        ensures
            ({
                let refused = self.ingest_rejected + self.ingest_failed;
                let calls = self.measurements_accepted + self.health_accepted + self.registrations
                    + self.ingest_rejected + self.ingest_failed;
                &&& calls >= 20 && 100 * refused > 33 * calls ==> self.shows(now, fleet_size).contains(
                    Problem::Refused { refused: refused as u64, calls: calls as u64 },
                ) && self.shows(now, fleet_size).len() > 0
                &&& !(calls >= 20 && 100 * refused > 33 * calls) ==> forall|r: u64, c: u64|
                    !self.shows(now, fleet_size).contains(Problem::Refused { refused: r, calls: c })
            }),
    {
        let refused = self.ingest_rejected + self.ingest_failed;
        let calls = self.measurements_accepted + self.health_accepted + self.registrations
            + self.ingest_rejected + self.ingest_failed;
        assert(self.refused() == refused);
        assert(self.calls() == calls);
        assert(capped(refused as u64) == refused);
        assert(capped(calls as u64) == calls);
        let shown = self.shows(now, fleet_size);
        let ingest: Seq<Problem> = if fleet_size > 0 {
            match self.last_ingest_at {
                None => seq![Problem::IngestNeverAccepted],
                Some(at) => if stalled(now, at, INGEST_STALL_S) {
                    seq![Problem::IngestStalled { at }]
                } else {
                    seq![]
                },
            }
        } else {
            seq![]
        };
        let detector: Seq<Problem> = match self.last_detection_at {
            Some(at) => if stalled(now, at, DETECTOR_STALL_S) {
                seq![Problem::DetectorStalled { at }]
            } else {
                seq![]
            },
            None => seq![],
        };
        let failing: Seq<Problem> = if self.ingest_failed > 0 && self.measurements_accepted == 0 {
            seq![Problem::EveryCallFailed]
        } else {
            seq![]
        };
        if calls >= 20 && 100 * refused > 33 * calls {
            let found = Problem::Refused { refused: refused as u64, calls: calls as u64 };
            assert(shown == ingest + detector + seq![found] + failing);
            assert(shown[(ingest.len() + detector.len()) as int] == found);
        } else {
            assert(shown == ingest + detector + seq![] + failing);
            assert forall|r: u64, c: u64| !shown.contains(Problem::Refused { refused: r, calls: c }) by {
                if shown.contains(Problem::Refused { refused: r, calls: c }) {
                    let i = choose|i: int| 0 <= i < shown.len() && shown[i] == Problem::Refused {
                        refused: r,
                        calls: c,
                    };
                    if i < ingest.len() {
                        assert(shown[i] == ingest[i]);
                    } else if i < ingest.len() + detector.len() {
                        assert(shown[i] == detector[i - ingest.len()]);
                    } else {
                        assert(shown[i] == failing[i - ingest.len() - detector.len()]);
                    }
                }
            }
        }
    }

    /// The problems this snapshot shows at `now` for a fleet of `fleet_size` nodes.
    pub fn problems(&self, now: Moment, fleet_size: u64) -> (problems: Vec<Problem>)
        ensures
            problems@ == self.shows(now, fleet_size),
            self.well_dated() ==> forall|i: int|
                0 <= i < problems@.len() ==> (#[trigger] problems@[i]).well_dated(),
    {
        let mut problems: Vec<Problem> = Vec::new();
        if fleet_size > 0 {
            match self.last_ingest_at {
                None => problems.push(Problem::IngestNeverAccepted),
                Some(at) => if stale(now, at, INGEST_STALL_S) {
                    problems.push(Problem::IngestStalled { at });
                },
            }
        }
        let ghost after_ingest = problems@;
        match self.last_detection_at {
            Some(at) => if stale(now, at, DETECTOR_STALL_S) {
                problems.push(Problem::DetectorStalled { at });
            },
            None => {},
        }
        let ghost after_detector = problems@;
        let calls = self.measurements_accepted.saturating_add(self.health_accepted).saturating_add(
            self.registrations,
        ).saturating_add(self.ingest_rejected).saturating_add(self.ingest_failed);
        if calls >= MIN_CALLS_FOR_RATE {
            let refused = self.ingest_rejected.saturating_add(self.ingest_failed);
            if above_rate(refused, calls) {
                problems.push(Problem::Refused { refused, calls });
            }
        }
        let ghost after_refusals = problems@;
        if self.ingest_failed > 0 && self.measurements_accepted == 0 {
            problems.push(Problem::EveryCallFailed);
        }
        assert(problems@ =~= self.shows(now, fleet_size));
        proof {
            if self.well_dated() {
                self.lemma_shows_well_dated(now, fleet_size);
            }
        }
        problems
    }

    /// Whether the server considers itself healthy: the snapshot shows no problem.
    pub fn is_healthy(&self, now: Moment, fleet_size: u64) -> (healthy: bool)
        ensures
            healthy == (self.shows(now, fleet_size).len() == 0),
    {
        self.problems(now, fleet_size).len() == 0
    }
}

/// Whether more than `limit_s` seconds, to the nanosecond, have passed from
/// the whole second `at` to `now`.
pub open spec fn stalled(now: Moment, at: i64, limit_s: i64) -> bool {
    now.since_epoch() - at * NANOS_PER_SECOND > limit_s * NANOS_PER_SECOND
}

/// Whether more than `limit_s` seconds have passed from `at` to `now`.
fn stale(now: Moment, at: i64, limit_s: i64) -> (stale: bool)
    requires
        0 <= limit_s <= 1_000_000,
    ensures
        stale == stalled(now, at, limit_s),
{
    nanos_between(Moment::at_second(at), now) > (limit_s as i128) * 1_000_000_000
}

/// Whether `part` of `whole` is more than [`REJECTION_PERCENT`] percent,
/// each count capped at `u32::MAX`.
fn above_rate(part: u64, whole: u64) -> (above: bool)
    ensures
        above == (100 * capped(part) > REJECTION_PERCENT * capped(whole)),
{
    let part = if part > 4_294_967_295 {
        4_294_967_295
    } else {
        part
    };
    let whole = if whole > 4_294_967_295 {
        4_294_967_295
    } else {
        whole
    };
    100 * part > REJECTION_PERCENT * whole
}

/// The liveness answer of the operations surface.
#[derive(Debug, Clone, Copy, PartialEq, Eq)]
pub struct HealthStatus {
    /// Always `"ok"` while the process serves requests.
    pub status: &'static str,
    /// Build version.
    pub version: &'static str,
}

impl HealthStatus {
    /// The answer of a process that serves requests, built as `version`.
    pub fn serving(version: &'static str) -> (answer: HealthStatus)
        ensures
            answer.status@ == "ok"@,
            answer.version == version,
    {
        HealthStatus { status: "ok", version }
    }
}

} // verus!
