//! The fleet emulator's deterministic parts: a generator seeded from a node
//! identity, and the plan of a history backfill.
use vstd::prelude::*;
use vstd::string::StringSliceAdditionalSpecFns;

verus! {

pub const FNV_OFFSET_BASIS: u64 = 0xcbf2_9ce4_8422_2325;

pub const FNV_PRIME: u64 = 0x0000_0100_0000_01b3;

/// Health samples sent at most during one backfill.
pub const MAX_HEALTH_SAMPLES: i64 = 48;

pub const SECONDS_PER_HOUR: i64 = 3600;

/// FNV-1a over a byte string.
pub open spec fn fnv1a(bytes: Seq<u8>) -> u64
    decreases bytes.len(),
{
    if bytes.len() == 0 {
        FNV_OFFSET_BASIS
    } else {
        vstd::wrapping::u64_specs::wrapping_mul(
            fnv1a(bytes.drop_last()) ^ (bytes.last() as u64),
            FNV_PRIME,
        )
    }
}

/// One node's generator, seeded from its identity.
#[derive(Debug, Clone, Copy)]
pub struct Signal {
    seed: u64,
}

impl View for Signal {
    type V = u64;

    closed spec fn view(&self) -> u64 {
        self.seed
    }
}

impl Signal {
    /// Seed from the node identity (FNV-1a over its UTF-8 bytes).
    pub fn for_identity(identity: &str) -> (signal: Self)
        ensures
            signal@ == fnv1a(identity.spec_bytes()),
    {
        let bytes = identity.as_bytes();
        let mut seed: u64 = FNV_OFFSET_BASIS;
        let mut index: usize = 0;
        while index < bytes.len()
            invariant
                index <= bytes@.len(),
                bytes@ == identity.spec_bytes(),
                seed == fnv1a(bytes@.take(index as int)),
            decreases bytes@.len() - index,
        {
            assert(bytes@.take(index as int) =~= bytes@.take(index + 1).drop_last());
            seed = (seed ^ (bytes[index] as u64)).wrapping_mul(FNV_PRIME);
            index = index + 1;
        }
        assert(bytes@.take(index as int) =~= bytes@);
        Signal { seed }
    }

    /// The seed the generator runs from.
    pub fn seed(self) -> (seed: u64)
        ensures
            seed == self@,
    {
        self.seed
    }

    /// Whether this identity belongs to the faulty fifth of the fleet.
    pub fn is_faulty(self) -> (faulty: bool)
        ensures
            faulty == (self@ % 5 == 0),
    {
        self.seed % 5 == 0
    }
}

/// Count one submitted window as sent or failed, saturating at the top.
pub fn tally(accepted: bool, sent: &mut u64, failed: &mut u64)
    ensures
        accepted ==> *final(sent) == (if *old(sent) == u64::MAX { u64::MAX } else { (*old(sent) + 1) as u64 }),
        accepted ==> *final(failed) == *old(failed),
        !accepted ==> *final(sent) == *old(sent),
        !accepted ==> *final(failed) == (if *old(failed) == u64::MAX { u64::MAX } else { (*old(failed) + 1) as u64 }),
{
    if accepted {
        *sent = sent.saturating_add(1);
    } else {
        *failed = failed.saturating_add(1);
    }
}

/// `a * b` for non-negative operands, held at `i64::MAX` where it would overflow.
pub open spec fn capped_product(a: int, b: int) -> i64 {
    if a * b > i64::MAX {
        i64::MAX
    } else {
        (a * b) as i64
    }
}

fn capped_mul(a: i64, b: i64) -> (product: i64)
    requires
        0 <= a,
        0 <= b,
    ensures
        product == capped_product(a as int, b as int),
{
    match a.checked_mul(b) {
        Some(product) => product,
        None => i64::MAX,
    }
}

/// What a backfill sends: measurement windows of `window` seconds covering
/// `span` seconds, `total` of them, oldest first.
#[derive(Debug, Clone, Copy, PartialEq, Eq)]
pub struct Backfill {
    pub window: i64,
    pub span: i64,
    pub total: i64,
}

pub open spec fn backfill_window(window_seconds: i64) -> i64 {
    if window_seconds < 1 { 1 } else { window_seconds }
}

pub open spec fn backfill_span(backfill_hours: i64) -> i64 {
    capped_product(if backfill_hours < 0 { 0 } else { backfill_hours as int }, SECONDS_PER_HOUR as int)
}

pub open spec fn health_samples(total: int) -> int {
    if total < 1 {
        1
    } else if total > MAX_HEALTH_SAMPLES {
        MAX_HEALTH_SAMPLES as int
    } else {
        total
    }
}

/// Plan a backfill: a window of at least one second, a span of the given hours
/// (never negative, held at `i64::MAX`), and as many whole windows as the span
/// holds; nothing to send when that is none.
pub fn plan_backfill(window_seconds: i64, backfill_hours: i64) -> (plan: Option<Backfill>)
    ensures
        ({
            let window = backfill_window(window_seconds);
            let span = backfill_span(backfill_hours);
            match plan {
                Some(p) => p.window == window && p.span == span && p.total == span / window
                    && p.total > 0,
                None => span / window == 0,
            }
        }),
{
    let window: i64 = if window_seconds < 1 { 1 } else { window_seconds };
    let hours: i64 = if backfill_hours < 0 { 0 } else { backfill_hours };
    let span = capped_mul(hours, SECONDS_PER_HOUR);
    let total: i64 = span / window;
    if total > 0 {
        Some(Backfill { window, span, total })
    } else {
        None
    }
}

impl Backfill {
    pub open spec fn well_formed(&self) -> bool {
        self.window >= 1 && self.span >= 0 && self.total >= 1
    }

    /// How long ago the window of `step` (counted back from now) ended.
    pub fn window_age(&self, step: i64) -> (age: i64)
        requires
            self.well_formed(),
            0 <= step,
        ensures
            age == capped_product(step as int, self.window as int),
    {
        capped_mul(step, self.window)
    }

    /// The ages of the health samples that accompany the backfill, oldest
    /// first: evenly spaced over the span, at most `MAX_HEALTH_SAMPLES` steps
    /// apart, ending at zero.
    pub fn health_ages(&self) -> (ages: Vec<i64>)
        requires
            self.well_formed(),
        ensures
            ages@.len() == health_samples(self.total as int) + 1,
            forall|i: int|
                #![trigger ages@[i]]
                0 <= i < ages@.len() ==> ages@[i] == capped_product(
                    health_samples(self.total as int) - i,
                    self.span as int / health_samples(self.total as int),
                ),
    {
        let samples: i64 = if self.total > MAX_HEALTH_SAMPLES { MAX_HEALTH_SAMPLES } else { self.total };
        let stride: i64 = self.span / samples;
        let mut ages: Vec<i64> = Vec::new();
        let mut step: i64 = samples;
        while step >= 0
            invariant
                samples == health_samples(self.total as int),
                stride == self.span as int / samples as int,
                stride >= 0,
                -1 <= step <= samples,
                ages@.len() == samples - step,
                forall|i: int|
                    #![trigger ages@[i]]
                    0 <= i < ages@.len() ==> ages@[i] == capped_product(samples - i, stride as int),
            decreases step + 1,
        {
            let age = capped_mul(step, stride);
            ages.push(age);
            step = step - 1;
        }
        ages
    }
}

} // verus!
