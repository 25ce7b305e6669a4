//! Rollup buckets: where an instant's hour, day and Monday-started week
//! begin, where a bucket ends, and which buckets a rollup run builds.
//! Instants are Unix seconds on the UTC calendar.
use vstd::prelude::*;

use crate::clock::{MAX_INSTANT_S, MIN_INSTANT_S};
use crate::enums::RollupResolution;

verus! {

pub const SECONDS_PER_HOUR: i64 = 3_600;

pub const SECONDS_PER_DAY: i64 = 86_400;

pub const SECONDS_PER_WEEK: i64 = 604_800;

/// Most buckets one run builds, so that a long backlog is worked off in slices.
pub const MAX_BUCKETS_PER_RUN: usize = 512;

/// The length of one bucket.
pub open spec fn period(resolution: RollupResolution) -> int {
    match resolution {
        RollupResolution::Hourly => SECONDS_PER_HOUR as int,
        RollupResolution::Daily => SECONDS_PER_DAY as int,
        RollupResolution::Weekly => SECONDS_PER_WEEK as int,
    }
}

/// Days since Monday of the week `at` falls in (the epoch was a Thursday).
pub open spec fn weekday_from_monday(at: int) -> int {
    (at / (SECONDS_PER_DAY as int) + 3) % 7
}

/// The first instant of the bucket that holds `at`.
pub open spec fn start_of(resolution: RollupResolution, at: int) -> int {
    match resolution {
        RollupResolution::Hourly => at - at % (SECONDS_PER_HOUR as int),
        RollupResolution::Daily => at - at % (SECONDS_PER_DAY as int),
        RollupResolution::Weekly => at - at % (SECONDS_PER_DAY as int) - weekday_from_monday(at)
            * SECONDS_PER_DAY,
    }
}

/// `value` modulo `divisor`, never negative.
fn floor_mod(value: i64, divisor: i64) -> (remainder: i64)
    requires
        0 < divisor,
    ensures
        remainder == value as int % divisor as int,
        0 <= remainder < divisor,
{
    if value >= 0 {
        value % divisor
    } else {
        let m: i64 = -(value + 1);
        let r: i64 = m % divisor;
        proof {
            let q = m as int / divisor as int;
            vstd::arithmetic::div_mod::lemma_fundamental_div_mod(m as int, divisor as int);
            assert(value == (-q - 1) * divisor + (divisor - 1 - r)) by (nonlinear_arith)
                requires
                    m == divisor * q + r,
                    value == -m - 1,
            ;
            vstd::arithmetic::div_mod::lemma_fundamental_div_mod_converse(
                value as int,
                divisor as int,
                -q - 1,
                divisor - 1 - r,
            );
        }
        divisor - 1 - r
    }
}

/// `value` divided by `divisor`, rounded down.
fn floor_div(value: i64, divisor: i64) -> (quotient: i64)
    requires
        0 < divisor,
    ensures
        quotient == value as int / divisor as int,
{
    if value >= 0 {
        value / divisor
    } else {
        let m: i64 = -(value + 1);
        let q: i64 = m / divisor;
        proof {
            let r = m as int % divisor as int;
            vstd::arithmetic::div_mod::lemma_fundamental_div_mod(m as int, divisor as int);
            assert(value == (-q - 1) * divisor + (divisor - 1 - r)) by (nonlinear_arith)
                requires
                    m == divisor * q + r,
                    value == -m - 1,
            ;
            vstd::arithmetic::div_mod::lemma_fundamental_div_mod_converse(
                value as int,
                divisor as int,
                -q - 1,
                divisor - 1 - r,
            );
        }
        -q - 1
    }
}

/// Where the bucket that holds `at` starts, if that instant is representable.
pub fn bucket_start(resolution: RollupResolution, at: i64) -> (start: Option<i64>)
    requires
        MIN_INSTANT_S <= at <= MAX_INSTANT_S,
    ensures
        start_of(resolution, at as int) >= MIN_INSTANT_S ==> start == Some(
            start_of(resolution, at as int) as i64,
        ),
        start_of(resolution, at as int) < MIN_INSTANT_S ==> start is None,
{
    let into_day = floor_mod(at, SECONDS_PER_DAY);
    let midnight = at - into_day;
    let start = match resolution {
        RollupResolution::Hourly => at - floor_mod(at, SECONDS_PER_HOUR),
        RollupResolution::Daily => midnight,
        RollupResolution::Weekly => {
            let days = floor_div(at, SECONDS_PER_DAY);
            let weekday = floor_mod(days + 3, 7);
            midnight - weekday * SECONDS_PER_DAY
        },
    };
    if start < MIN_INSTANT_S {
        None
    } else {
        Some(start)
    }
}

/// Every instant lies in the bucket that starts where [`bucket_start`] says:
/// no later than the instant and less than one period before it; hourly
/// buckets start on the hour, daily and weekly ones at midnight, and weekly
/// ones on a Monday.
pub proof fn lemma_bucket_holds_instant(resolution: RollupResolution, at: int)
    ensures
        start_of(resolution, at) <= at < start_of(resolution, at) + period(resolution),
        resolution == RollupResolution::Hourly ==> start_of(resolution, at) % (SECONDS_PER_HOUR as int) == 0,
        resolution != RollupResolution::Hourly ==> start_of(resolution, at) % (SECONDS_PER_DAY as int) == 0,
        resolution == RollupResolution::Weekly ==> weekday_from_monday(start_of(resolution, at)) == 0,
{
    let day = SECONDS_PER_DAY as int;
    let hour = SECONDS_PER_HOUR as int;
    let d = at / day;
    let w = (d + 3) % 7;
    vstd::arithmetic::div_mod::lemma_fundamental_div_mod(at, day);
    vstd::arithmetic::div_mod::lemma_fundamental_div_mod(at, hour);
    vstd::arithmetic::div_mod::lemma_fundamental_div_mod(d + 3, 7);
    match resolution {
        RollupResolution::Hourly => {
            vstd::arithmetic::div_mod::lemma_fundamental_div_mod_converse(at - at % hour, hour, at / hour, 0);
        },
        RollupResolution::Daily => {
            vstd::arithmetic::div_mod::lemma_fundamental_div_mod_converse(at - at % day, day, d, 0);
        },
        RollupResolution::Weekly => {
            let start = at - at % day - w * day;
            assert(start == (d - w) * day) by (nonlinear_arith)
                requires
                    at == day * d + at % day,
                    start == at - at % day - w * day,
            ;
            vstd::arithmetic::div_mod::lemma_fundamental_div_mod_converse(start, day, d - w, 0);
            assert(d - w + 3 == 7 * ((d + 3) / 7));
            vstd::arithmetic::div_mod::lemma_fundamental_div_mod_converse(d - w + 3, 7, (d + 3) / 7, 0);
        },
    }
}

/// The end of the bucket starting at `start`, if representable.
pub fn bucket_end(resolution: RollupResolution, start: i64) -> (end: Option<i64>)
    requires
        MIN_INSTANT_S <= start <= MAX_INSTANT_S,
    ensures
        start + period(resolution) <= MAX_INSTANT_S ==> end == Some((start + period(resolution)) as i64),
        start + period(resolution) > MAX_INSTANT_S ==> end is None,
{
    let length = match resolution {
        RollupResolution::Hourly => SECONDS_PER_HOUR,
        RollupResolution::Daily => SECONDS_PER_DAY,
        RollupResolution::Weekly => SECONDS_PER_WEEK,
    };
    let end = start + length;
    if end <= MAX_INSTANT_S {
        Some(end)
    } else {
        None
    }
}

/// The next bucket after the one starting at `start`.
pub fn next_bucket(resolution: RollupResolution, start: i64) -> (next: Option<i64>)
    requires
        MIN_INSTANT_S <= start <= MAX_INSTANT_S,
    ensures
        start + period(resolution) <= MAX_INSTANT_S ==> next == Some((start + period(resolution)) as i64),
        start + period(resolution) > MAX_INSTANT_S ==> next is None,
{
    bucket_end(resolution, start)
}

/// The buckets a run builds, oldest first: from `start`, each complete
/// bucket (its end not after `now`) that is not stored yet, at most `budget`
/// of them; stored buckets are stepped over without counting.
pub open spec fn pending(
    resolution: RollupResolution,
    start: int,
    now: int,
    stored: Seq<i64>,
    budget: nat,
) -> Seq<(i64, i64)>
    decreases budget, now - start,
{
    let end = start + period(resolution);
    if budget == 0 || end > MAX_INSTANT_S || end > now || start < MIN_INSTANT_S {
        Seq::empty()
    } else if stored.contains(start as i64) {
        pending(resolution, end, now, stored, budget)
    } else {
        seq![(start as i64, end as i64)] + pending(resolution, end, now, stored, (budget - 1) as nat)
    }
}

fn is_stored(stored: &Vec<i64>, start: i64) -> (found: bool)
    ensures
        found == stored@.contains(start),
{
    let mut i: usize = 0;
    while i < stored.len()
        invariant
            i <= stored@.len(),
            forall|j: int| 0 <= j < i ==> stored@[j] != start,
        decreases stored@.len() - i,
    {
        if stored[i] == start {
            assert(stored@[i as int] == start);
            return true;
        }
        i = i + 1;
    }
    false
}

/// Which buckets of one resolution a run builds, from the first outstanding
/// bucket up to `now`, given the bucket starts already stored.
pub fn plan_run(resolution: RollupResolution, first: i64, now: i64, stored: &Vec<i64>) -> (plan: Vec<(i64, i64)>)
    requires
        MIN_INSTANT_S <= first <= MAX_INSTANT_S,
    ensures
        plan@ == pending(resolution, first as int, now as int, stored@, MAX_BUCKETS_PER_RUN as nat),
        plan@.len() <= MAX_BUCKETS_PER_RUN,
{
    let mut plan: Vec<(i64, i64)> = Vec::new();
    let mut start: i64 = first;
    let mut built: usize = 0;
    while built < MAX_BUCKETS_PER_RUN
        invariant
            MIN_INSTANT_S <= start <= MAX_INSTANT_S,
            built <= MAX_BUCKETS_PER_RUN,
            plan@.len() == built,
            plan@ + pending(resolution, start as int, now as int, stored@, (MAX_BUCKETS_PER_RUN - built) as nat)
                == pending(resolution, first as int, now as int, stored@, MAX_BUCKETS_PER_RUN as nat),
        ensures
            plan@.len() <= MAX_BUCKETS_PER_RUN,
            plan@ == pending(resolution, first as int, now as int, stored@, MAX_BUCKETS_PER_RUN as nat),
        decreases MAX_BUCKETS_PER_RUN - built, now - start,
    {
        let ghost budget = (MAX_BUCKETS_PER_RUN - built) as nat;
        let end = match bucket_end(resolution, start) {
            Some(end) => end,
            None => {
                assert(pending(resolution, start as int, now as int, stored@, budget) =~= Seq::empty());
                assert(plan@ =~= plan@ + pending(resolution, start as int, now as int, stored@, budget));
                break;
            },
        };
        if end > now {
            assert(pending(resolution, start as int, now as int, stored@, budget) =~= Seq::empty());
            assert(plan@ =~= plan@ + pending(resolution, start as int, now as int, stored@, budget));
            break;
        }
        if !is_stored(stored, start) {
            let ghost before = plan@;
            plan.push((start, end));
            built = built + 1;
            assert(plan@ + pending(resolution, end as int, now as int, stored@, (budget - 1) as nat)
                =~= before + pending(resolution, start as int, now as int, stored@, budget));
        }
        start = end;
        if built == MAX_BUCKETS_PER_RUN {
            assert(pending(resolution, start as int, now as int, stored@, 0) =~= Seq::empty());
            assert(plan@ =~= plan@ + pending(resolution, start as int, now as int, stored@, 0));
        }
    }
    plan
}

/// Midnight `days` before the midnight `today`, if representable.
pub fn horizon(today: i64, days: u64) -> (before: Option<i64>)
    requires
        MIN_INSTANT_S <= today <= MAX_INSTANT_S,
    ensures
        today - days * SECONDS_PER_DAY >= MIN_INSTANT_S ==> before == Some(
            (today - days * SECONDS_PER_DAY) as i64,
        ),
        today - days * SECONDS_PER_DAY < MIN_INSTANT_S ==> before is None,
{
    let reach: u64 = ((today as i128) - (MIN_INSTANT_S as i128)) as u64;
    if days > reach / (SECONDS_PER_DAY as u64) {
        proof {
            assert(days * SECONDS_PER_DAY > reach) by (nonlinear_arith)
                requires
                    days > reach / 86400,
            ;
        }
        return None;
    }
    proof {
        assert(days * SECONDS_PER_DAY <= reach) by (nonlinear_arith)
            requires
                days <= reach / 86400,
        ;
    }
    Some(today - (days as i64) * SECONDS_PER_DAY)
}

} // verus!
