//! Decisions the ingest service makes before it touches the database: when
//! a node should report next, what a bearer credential is, and whether a
//! channel and a report window are acceptable.
use vstd::prelude::*;

use crate::clock::{saturated, saturating_add, saturating_sub, MAX_INSTANT_MS, MIN_INSTANT_MS};
use crate::enums::Modulation;
use crate::text::{same_text, trim, trim_end, trim_start, trimmed, white_space};

verus! {

/// Reporting cycle of a node whose configured cycle is not positive.
pub const DEFAULT_CYCLE_MS: i64 = 60_000;

/// Knuth's multiplier, coprime with [`DEFAULT_CYCLE_MS`].
pub const SLOT_SPREAD: i64 = 2_654_435_761;

/// The cycle a node reports on: its own if positive, else the default.
pub open spec fn cycle_of(cycle_ms: i64) -> int {
    if cycle_ms > 0 {
        cycle_ms as int
    } else {
        DEFAULT_CYCLE_MS as int
    }
}

/// The node's fixed offset within every cycle.
pub open spec fn slot_of(node_id: i64, cycle: int) -> int {
    (node_id.wrapping_mul(SLOT_SPREAD) as int) % cycle
}

/// The next instant on the node's slot strictly after `now_ms`, computed as
/// the server computes it with saturating arithmetic.
pub open spec fn next_slot(node_id: i64, now_ms: i64, cycle_ms: i64) -> int {
    let cycle = cycle_of(cycle_ms);
    let start = saturated(now_ms - (now_ms as int) % cycle);
    let first = saturated(start + slot_of(node_id, cycle));
    if first <= now_ms {
        saturated(first + cycle) as int
    } else {
        first as int
    }
}

/// When a node should next report, in Unix milliseconds: the first instant
/// after `now_ms` that falls on the node's own slot of its cycle, or `None`
/// where that instant is past the representable range.
pub fn report_schedule(node_id: i64, now_ms: i64, cycle_ms: i64) -> (next: Option<i64>)
    ensures
        match next {
            Some(at) => at == next_slot(node_id, now_ms, cycle_ms),
            None => !(MIN_INSTANT_MS <= next_slot(node_id, now_ms, cycle_ms) <= MAX_INSTANT_MS),
        },
        next matches Some(at) ==> MIN_INSTANT_MS <= at <= MAX_INSTANT_MS,
{
    let cycle = if cycle_ms > 0 {
        cycle_ms
    } else {
        DEFAULT_CYCLE_MS
    };
    let spread = node_id.wrapping_mul(SLOT_SPREAD);
    let slot = match spread.checked_rem_euclid(cycle) {
        Some(slot) => slot,
        None => 0,
    };
    let offset = match now_ms.checked_rem_euclid(cycle) {
        Some(offset) => offset,
        None => 0,
    };
    let start = saturating_sub(now_ms, offset);
    let mut next = saturating_add(start, slot);
    if next <= now_ms {
        next = saturating_add(next, cycle);
    }
    if next < MIN_INSTANT_MS || next > MAX_INSTANT_MS {
        return None;
    }
    Some(next)
}

/// A node always reports on its own slot, and its next report is due within
/// one cycle and strictly in the future, wherever the clock stands within
/// the representable range.
pub proof fn lemma_schedule_keeps_slot(node_id: i64, now_ms: i64, cycle_ms: i64)
    requires
        MIN_INSTANT_MS <= now_ms,
        now_ms + cycle_of(cycle_ms) <= MAX_INSTANT_MS,
    ensures
        0 < next_slot(node_id, now_ms, cycle_ms) - now_ms <= cycle_of(cycle_ms),
        next_slot(node_id, now_ms, cycle_ms) % cycle_of(cycle_ms) == slot_of(node_id, cycle_of(cycle_ms)),
{
    let cycle = cycle_of(cycle_ms);
    let slot = slot_of(node_id, cycle);
    let start = now_ms - (now_ms as int) % cycle;
    assert(0 <= (now_ms as int) % cycle < cycle);
    assert(0 <= slot < cycle);
    assert(start % cycle == 0) by (nonlinear_arith)
        requires
            start == now_ms - (now_ms as int) % cycle,
            cycle > 0,
    {
        vstd::arithmetic::div_mod::lemma_fundamental_div_mod(now_ms as int, cycle);
        vstd::arithmetic::div_mod::lemma_mod_multiples_basic((now_ms as int) / cycle, cycle);
    }
    assert((start + slot) % cycle == slot) by {
        vstd::arithmetic::div_mod::lemma_mod_adds(start, slot, cycle);
        vstd::arithmetic::div_mod::lemma_small_mod(slot as nat, cycle as nat);
    }
    assert((start + slot + cycle) % cycle == slot) by {
        vstd::arithmetic::div_mod::lemma_mod_add_multiples_vanish(start + slot, cycle);
    }
}

/// Nodes whose ids lie within one default cycle of each other report on
/// different slots of the default cycle, so a fleet of sequential ids is
/// spread without collisions.
pub proof fn lemma_default_slots_are_distinct(a: i64, b: i64)
    requires
        0 <= a < b < DEFAULT_CYCLE_MS,
    ensures
        slot_of(a, DEFAULT_CYCLE_MS as int) != slot_of(b, DEFAULT_CYCLE_MS as int),
{
    let c: int = DEFAULT_CYCLE_MS as int;
    let s: int = SLOT_SPREAD as int;
    let inverse: int = 45_841;
    let k: int = 2_028_033_162;
    assert(s * inverse == 1 + k * c);
    assert(0 <= a * s <= i64::MAX) by (nonlinear_arith)
        requires
            0 <= a < 60_000,
            s == 2_654_435_761,
    ;
    assert(0 <= b * s <= i64::MAX) by (nonlinear_arith)
        requires
            0 <= b < 60_000,
            s == 2_654_435_761,
    ;
    vstd::arithmetic::div_mod::lemma_small_mod((a * s) as nat, 0x1_0000_0000_0000_0000nat);
    vstd::arithmetic::div_mod::lemma_small_mod((b * s) as nat, 0x1_0000_0000_0000_0000nat);
    assert(a.wrapping_mul(SLOT_SPREAD) as int == a * s);
    assert(b.wrapping_mul(SLOT_SPREAD) as int == b * s);
    if (a * s) % c == (b * s) % c {
        let r = (a * s) % c;
        let q1 = (a * s) / c;
        let q2 = (b * s) / c;
        vstd::arithmetic::div_mod::lemma_fundamental_div_mod(a * s, c);
        vstd::arithmetic::div_mod::lemma_fundamental_div_mod(b * s, c);
        let d = b - a;
        assert(d * s == (q2 - q1) * c) by (nonlinear_arith)
            requires
                a * s == c * q1 + r,
                b * s == c * q2 + r,
                d == b - a,
        ;
        assert(d == c * ((q2 - q1) * inverse - d * k)) by (nonlinear_arith)
            requires
                d * s == (q2 - q1) * c,
                s * inverse == 1 + k * c,
        ;
        let m = (q2 - q1) * inverse - d * k;
        assert(false) by (nonlinear_arith)
            requires
                d == c * m,
                0 < d < c,
                c == 60_000,
        ;
    }
}

/// A cycle that is not positive reports as the default cycle does.
pub proof fn lemma_zero_cycle_is_default(node_id: i64, now_ms: i64)
    ensures
        next_slot(node_id, now_ms, 0) == next_slot(node_id, now_ms, DEFAULT_CYCLE_MS),
{
}

/// Why a bearer credential was refused.
#[derive(Debug, Clone, Copy, PartialEq, Eq, Structural)]
pub enum CredentialRefusal {
    /// The request carries no authorization metadata.
    Missing,
    /// The authorization metadata is not visible ASCII.
    NotAscii,
    /// The authorization metadata does not start with `Bearer `.
    NotBearer,
    /// The credential after `Bearer ` is empty.
    Empty,
}

/// Whether a metadata byte is one a header may show as text: visible ASCII or tab.
pub open spec fn visible(byte: u8) -> bool {
    (32 <= byte && byte < 127) || byte == 9
}

/// The characters of an all-ASCII byte string.
pub open spec fn ascii_chars(bytes: Seq<u8>) -> Seq<char> {
    Seq::new(bytes.len(), |i: int| bytes[i] as char)
}

/// The credential a bearer header carries: what follows `Bearer `, trimmed.
pub open spec fn bearer_of(header: Option<Seq<u8>>) -> Result<Seq<char>, CredentialRefusal> {
    match header {
        None => Err(CredentialRefusal::Missing),
        Some(bytes) => if !(forall|i: int| 0 <= i < bytes.len() ==> visible(#[trigger] bytes[i])) {
            Err(CredentialRefusal::NotAscii)
        } else if !(ascii_chars(bytes).len() >= 7 && ascii_chars(bytes).take(7) == "Bearer "@) {
            Err(CredentialRefusal::NotBearer)
        } else if trimmed(ascii_chars(bytes).skip(7)).len() == 0 {
            Err(CredentialRefusal::Empty)
        } else {
            Ok(trimmed(ascii_chars(bytes).skip(7)))
        },
    }
}

fn ascii_text(bytes: &[u8]) -> (text: String)
    requires
        forall|i: int| 0 <= i < bytes@.len() ==> visible(#[trigger] bytes@[i]),
    ensures
        text@ == ascii_chars(bytes@),
{
    let mut text = String::new();
    let mut i: usize = 0;
    while i < bytes.len()
        invariant
            0 <= i <= bytes@.len(),
            forall|j: int| 0 <= j < bytes@.len() ==> visible(#[trigger] bytes@[j]),
            text@ == ascii_chars(bytes@).take(i as int),
        decreases bytes@.len() - i,
    {
        crate::text::push_char(&mut text, bytes[i] as char);
        assert(text@ =~= ascii_chars(bytes@).take(i + 1));
        i = i + 1;
    }
    assert(ascii_chars(bytes@).take(bytes@.len() as int) =~= ascii_chars(bytes@));
    text
}

/// The bearer credential in a request's `authorization` metadata.
pub fn bearer_token(header: Option<&[u8]>) -> (credential: Result<String, CredentialRefusal>)
    ensures
        match bearer_of(header_view(header)) {
            Ok(expected) => credential matches Ok(token) && token@ == expected,
            Err(refusal) => credential == Err::<String, CredentialRefusal>(refusal),
        },
{
    match header {
        Some(bytes) => bearer_in(bytes),
        None => Err(CredentialRefusal::Missing),
    }
}

/// The bytes of a request's `authorization` metadata, if it has any.
pub open spec fn header_view(header: Option<&[u8]>) -> Option<Seq<u8>> {
    match header {
        Some(bytes) => Some(bytes@),
        None => None,
    }
}

fn bearer_in(bytes: &[u8]) -> (credential: Result<String, CredentialRefusal>)
    ensures
        match bearer_of(Some(bytes@)) {
            Ok(expected) => credential matches Ok(token) && token@ == expected,
            Err(refusal) => credential == Err::<String, CredentialRefusal>(refusal),
        },
{
    let mut i: usize = 0;
    while i < bytes.len()
        invariant
            0 <= i <= bytes@.len(),
            forall|j: int| 0 <= j < i ==> visible(#[trigger] bytes@[j]),
        decreases bytes@.len() - i,
    {
        let byte = bytes[i];
        if !((32 <= byte && byte < 127) || byte == 9) {
            assert(!visible(bytes@[i as int]));
            return Err(CredentialRefusal::NotAscii);
        }
        i = i + 1;
    }
    let text = ascii_text(bytes);
    let length = text.as_str().unicode_len();
    if length < 7 {
        return Err(CredentialRefusal::NotBearer);
    }
    let prefix = text.as_str().substring_char(0, 7);
    if !same_text(prefix, "Bearer ") {
        return Err(CredentialRefusal::NotBearer);
    }
    let rest = text.as_str().substring_char(7, length);
    assert(rest@ =~= ascii_chars(bytes@).skip(7));
    let token = trim(rest);
    if token.unicode_len() == 0 {
        return Err(CredentialRefusal::Empty);
    }
    Ok(token.to_owned())
}

/// The bytes of `Bearer `, as a header carries them.
pub open spec fn bearer_prefix() -> Seq<u8> {
    seq![66u8, 101u8, 97u8, 114u8, 101u8, 114u8, 32u8]
}

/// A header of visible ASCII made of `Bearer ` and then `rest` yields
/// exactly `rest` trimmed, never the prefix; where `rest` neither starts
/// nor ends with a space or tab, it yields `rest` itself, character for
/// character. A blank `rest` is refused as empty.
pub proof fn lemma_bearer_strips_prefix(rest: Seq<u8>)
    requires
        forall|i: int| 0 <= i < rest.len() ==> visible(#[trigger] rest[i]),
    ensures
        trimmed(ascii_chars(rest)).len() > 0 ==> bearer_of(Some(bearer_prefix() + rest)) == Ok::<
            Seq<char>,
            CredentialRefusal,
        >(trimmed(ascii_chars(rest))),
        trimmed(ascii_chars(rest)).len() == 0 ==> bearer_of(Some(bearer_prefix() + rest)) == Err::<
            Seq<char>,
            CredentialRefusal,
        >(CredentialRefusal::Empty),
        rest.len() > 0 && rest[0] != 32 && rest[0] != 9 && rest.last() != 32 && rest.last() != 9
            ==> bearer_of(Some(bearer_prefix() + rest)) == Ok::<Seq<char>, CredentialRefusal>(
            ascii_chars(rest),
        ),
{
    let bytes = bearer_prefix() + rest;
    reveal_strlit("Bearer ");
    assert forall|i: int| 0 <= i < bytes.len() implies visible(#[trigger] bytes[i]) by {
        if i >= 7 {
            assert(bytes[i] == rest[i - 7]);
        }
    }
    let text = ascii_chars(bytes);
    assert(text.take(7) =~= "Bearer "@);
    assert(text.skip(7) =~= ascii_chars(rest));
    if rest.len() > 0 && rest[0] != 32 && rest[0] != 9 && rest.last() != 32 && rest.last() != 9 {
        let chars = ascii_chars(rest);
        assert(!white_space(chars[0]));
        assert(!white_space(chars.last()));
        assert(trim_start(chars) == 0);
        assert(trim_end(chars) == chars.len());
        assert(trimmed(chars) =~= chars);
    }
}

/// A header is refused when it is missing, when any byte of it is not
/// visible ASCII, and when, being visible ASCII, it does not start with the
/// seven bytes of `Bearer `, in that case exactly.
pub proof fn lemma_bearer_needs_prefix(bytes: Seq<u8>)
    ensures
        bearer_of(None) == Err::<Seq<char>, CredentialRefusal>(CredentialRefusal::Missing),
        (exists|i: int| 0 <= i < bytes.len() && !visible(#[trigger] bytes[i])) ==> bearer_of(
            Some(bytes),
        ) == Err::<Seq<char>, CredentialRefusal>(CredentialRefusal::NotAscii),
        (forall|i: int| 0 <= i < bytes.len() ==> visible(#[trigger] bytes[i])) && !(bytes.len() >= 7
            && bytes.take(7) == bearer_prefix()) ==> bearer_of(Some(bytes)) == Err::<
            Seq<char>,
            CredentialRefusal,
        >(CredentialRefusal::NotBearer),
{
    reveal_strlit("Bearer ");
    let text = ascii_chars(bytes);
    if bytes.len() >= 7 && text.take(7) == "Bearer "@ {
        assert forall|i: int| 0 <= i < 7 implies bytes.take(7)[i] == bearer_prefix()[i] by {
            assert(text.take(7)[i] == "Bearer "@[i]);
            assert(text[i] == (bytes[i] as char));
        }
        assert(bytes.take(7) =~= bearer_prefix());
    }
}

/// The broadcast bands: a channel names a frequency, and an FM channel is
/// accepted exactly within 87.5 to 108 MHz and a DAB channel exactly within
/// 174 to 240 MHz; outside its band each is refused with its frequency, and
/// a channel of neither modulation is refused as unknown.
pub proof fn lemma_broadcast_bands(frequency_hz: u64, modulation: Option<Modulation>)
    ensures
        frequency_hz == 0 ==> band_check(frequency_hz, modulation) == Err::<(), BandRefusal>(
            BandRefusal::ZeroFrequency,
        ),
        frequency_hz != 0 && modulation is None ==> band_check(frequency_hz, modulation) == Err::<
            (),
            BandRefusal,
        >(BandRefusal::UnknownModulation),
        frequency_hz != 0 && modulation == Some(Modulation::Fm) ==> (band_check(
            frequency_hz,
            modulation,
        ) == if 87_500_000 <= frequency_hz && frequency_hz <= 108_000_000 {
            Ok::<(), BandRefusal>(())
        } else {
            Err(BandRefusal::OutsideFm { frequency_hz })
        }),
        frequency_hz != 0 && modulation == Some(Modulation::Dab) ==> (band_check(
            frequency_hz,
            modulation,
        ) == if 174_000_000 <= frequency_hz && frequency_hz <= 240_000_000 {
            Ok::<(), BandRefusal>(())
        } else {
            Err(BandRefusal::OutsideDab { frequency_hz })
        }),
{
}

/// Why a channel's band was refused.
#[derive(Debug, Clone, Copy, PartialEq, Eq, Structural)]
pub enum BandRefusal {
    /// The channel names no frequency.
    ZeroFrequency,
    /// An FM channel outside 87.5 to 108 MHz.
    OutsideFm { frequency_hz: u64 },
    /// A DAB channel outside 174 to 240 MHz.
    OutsideDab { frequency_hz: u64 },
    /// The modulation is neither FM nor DAB.
    UnknownModulation,
}

/// Whether a channel sits inside the broadcast band of its modulation.
pub open spec fn band_check(frequency_hz: u64, modulation: Option<Modulation>) -> Result<(), BandRefusal> {
    if frequency_hz == 0 {
        Err(BandRefusal::ZeroFrequency)
    } else {
        match modulation {
            Some(Modulation::Fm) => if 87_500_000 <= frequency_hz <= 108_000_000 {
                Ok(())
            } else {
                Err(BandRefusal::OutsideFm { frequency_hz })
            },
            Some(Modulation::Dab) => if 174_000_000 <= frequency_hz <= 240_000_000 {
                Ok(())
            } else {
                Err(BandRefusal::OutsideDab { frequency_hz })
            },
            None => Err(BandRefusal::UnknownModulation),
        }
    }
}

/// Reject a channel outside the broadcast band its modulation lives in.
/// `modulation` is `None` for an unspecified or unknown wire value.
pub fn check_band(frequency_hz: u64, modulation: Option<Modulation>) -> (checked: Result<(), BandRefusal>)
    ensures
        checked == band_check(frequency_hz, modulation),
{
    if frequency_hz == 0 {
        return Err(BandRefusal::ZeroFrequency);
    }
    match modulation {
        Some(Modulation::Fm) => if 87_500_000 <= frequency_hz && frequency_hz <= 108_000_000 {
            Ok(())
        } else {
            Err(BandRefusal::OutsideFm { frequency_hz })
        },
        Some(Modulation::Dab) => if 174_000_000 <= frequency_hz && frequency_hz <= 240_000_000 {
            Ok(())
        } else {
            Err(BandRefusal::OutsideDab { frequency_hz })
        },
        None => Err(BandRefusal::UnknownModulation),
    }
}

/// Longest aggregation window a report may cover, in seconds.
pub const MAX_WINDOW_SECONDS: i64 = 86_400;

/// A protobuf timestamp: seconds and nanoseconds since the Unix epoch.
#[derive(Debug, Clone, Copy, PartialEq, Eq, Structural)]
pub struct Stamp {
    pub seconds: i64,
    pub nanos: i32,
}

/// Why a report's window was refused.
#[derive(Debug, Clone, Copy, PartialEq, Eq, Structural)]
pub enum WindowRefusal {
    MissingStart,
    MissingEnd,
    /// The window does not end after it starts.
    NotAdvancing,
    /// The window's length in seconds overflows.
    Overflow,
    /// The window is longer than [`MAX_WINDOW_SECONDS`].
    TooLong,
}

/// Whether a report's window is acceptable: both ends given, the end after
/// the start, and no more than a day between them.
pub open spec fn window_check(start: Option<Stamp>, end: Option<Stamp>) -> Result<(), WindowRefusal> {
    match (start, end) {
        (None, _) => Err(WindowRefusal::MissingStart),
        (Some(_), None) => Err(WindowRefusal::MissingEnd),
        (Some(s), Some(e)) => if !(e.seconds > s.seconds || (e.seconds == s.seconds && e.nanos
            > s.nanos)) {
            Err(WindowRefusal::NotAdvancing)
        } else if e.seconds - s.seconds > i64::MAX {
            Err(WindowRefusal::Overflow)
        } else if e.seconds - s.seconds > MAX_WINDOW_SECONDS {
            Err(WindowRefusal::TooLong)
        } else {
            Ok(())
        },
    }
}

/// Check the window a measurement report claims to cover.
pub fn check_window(start: Option<Stamp>, end: Option<Stamp>) -> (checked: Result<(), WindowRefusal>)
    ensures
        checked == window_check(start, end),
{
    let s = match start {
        Some(s) => s,
        None => return Err(WindowRefusal::MissingStart),
    };
    let e = match end {
        Some(e) => e,
        None => return Err(WindowRefusal::MissingEnd),
    };
    if !(e.seconds > s.seconds || (e.seconds == s.seconds && e.nanos > s.nanos)) {
        return Err(WindowRefusal::NotAdvancing);
    }
    let seconds = match e.seconds.checked_sub(s.seconds) {
        Some(seconds) => seconds,
        None => return Err(WindowRefusal::Overflow),
    };
    if seconds > MAX_WINDOW_SECONDS {
        return Err(WindowRefusal::TooLong);
    }
    Ok(())
}

/// Whether a request's protocol version is the one this server speaks.
pub fn check_version(version: &str, expected: &str) -> (accepted: bool)
    ensures
        accepted == (version@ == expected@),
{
    same_text(version, expected)
}

/// Where a registration's antenna lies, as far as the checks on it go.
#[derive(Debug, Clone, Copy, PartialEq, Eq, Structural)]
pub enum LocationCheck {
    Missing,
    /// The latitude is outside -90 to 90 degrees.
    LatitudeOutOfRange,
    /// The latitude is fine, the longitude outside -180 to 180 degrees.
    LongitudeOutOfRange,
    OnTheGlobe,
}

/// Why a registration request was refused.
#[derive(Debug, Clone, Copy, PartialEq, Eq, Structural)]
pub enum RegistrationRefusal {
    UnsupportedVersion,
    EmptyIdentity,
    EmptyName,
    LatitudeOutOfRange,
    LongitudeOutOfRange,
    MissingLocation,
    EmptyDevice,
    MissingHardware,
    NoMetrics,
    UnspecifiedMetric,
    MissingCapabilities,
}

/// The wire value of a metric nobody named.
pub const UNSPECIFIED_METRIC: i32 = 0;

/// What a registration request is answered, checked in order: the version,
/// the identity, the name, the location, the hardware, the capabilities.
pub open spec fn registration_check(
    version: Seq<char>,
    expected: Seq<char>,
    identity: Seq<char>,
    name: Seq<char>,
    location: LocationCheck,
    device: Option<Seq<char>>,
    metrics: Option<Seq<i32>>,
) -> Result<(), RegistrationRefusal> {
    if version != expected {
        Err(RegistrationRefusal::UnsupportedVersion)
    } else if identity.len() == 0 {
        Err(RegistrationRefusal::EmptyIdentity)
    } else if name.len() == 0 {
        Err(RegistrationRefusal::EmptyName)
    } else if location == LocationCheck::LatitudeOutOfRange {
        Err(RegistrationRefusal::LatitudeOutOfRange)
    } else if location == LocationCheck::LongitudeOutOfRange {
        Err(RegistrationRefusal::LongitudeOutOfRange)
    } else if location == LocationCheck::Missing {
        Err(RegistrationRefusal::MissingLocation)
    } else if device matches Some(d) && d.len() == 0 {
        Err(RegistrationRefusal::EmptyDevice)
    } else if device is None {
        Err(RegistrationRefusal::MissingHardware)
    } else if metrics matches Some(m) && m.len() == 0 {
        Err(RegistrationRefusal::NoMetrics)
    } else if metrics matches Some(m) && m.contains(UNSPECIFIED_METRIC) {
        Err(RegistrationRefusal::UnspecifiedMetric)
    } else if metrics is None {
        Err(RegistrationRefusal::MissingCapabilities)
    } else {
        Ok(())
    }
}

/// Validate a registration request: its protocol version against the one
/// this server speaks, its identity and name, where its antenna is, its
/// hardware's device name and the metrics it can measure (wire values).
pub fn check_registration(
    version: &str,
    expected: &str,
    identity: &str,
    name: &str,
    location: LocationCheck,
    device: Option<&str>,
    metrics: Option<&[i32]>,
) -> (checked: Result<(), RegistrationRefusal>)
    ensures
        checked == registration_check(
            version@,
            expected@,
            identity@,
            name@,
            location,
            match device {
                Some(d) => Some(d@),
                None => None,
            },
            match metrics {
                Some(m) => Some(m@),
                None => None,
            },
        ),
{
    if !check_version(version, expected) {
        return Err(RegistrationRefusal::UnsupportedVersion);
    }
    if identity.is_empty() {
        return Err(RegistrationRefusal::EmptyIdentity);
    }
    if name.is_empty() {
        return Err(RegistrationRefusal::EmptyName);
    }
    match location {
        LocationCheck::LatitudeOutOfRange => return Err(RegistrationRefusal::LatitudeOutOfRange),
        LocationCheck::LongitudeOutOfRange => return Err(RegistrationRefusal::LongitudeOutOfRange),
        LocationCheck::Missing => return Err(RegistrationRefusal::MissingLocation),
        LocationCheck::OnTheGlobe => {},
    }
    match device {
        Some(d) => if d.is_empty() {
            return Err(RegistrationRefusal::EmptyDevice);
        },
        None => return Err(RegistrationRefusal::MissingHardware),
    }
    match metrics {
        Some(m) => {
            if m.len() == 0 {
                return Err(RegistrationRefusal::NoMetrics);
            }
            if names_unspecified(m) {
                return Err(RegistrationRefusal::UnspecifiedMetric);
            }
        },
        None => return Err(RegistrationRefusal::MissingCapabilities),
    }
    Ok(())
}

fn names_unspecified(metrics: &[i32]) -> (found: bool)
    ensures
        found == metrics@.contains(UNSPECIFIED_METRIC),
{
    let mut i: usize = 0;
    while i < metrics.len()
        invariant
            i <= metrics@.len(),
            forall|k: int| 0 <= k < i ==> metrics@[k] != UNSPECIFIED_METRIC,
        decreases metrics@.len() - i,
    {
        if metrics[i] == UNSPECIFIED_METRIC {
            assert(metrics@[i as int] == UNSPECIFIED_METRIC);
            return true;
        }
        i = i + 1;
    }
    false
}

/// What registering changes on the stored node.
#[derive(Debug, Clone, Copy, PartialEq, Eq, Structural)]
pub struct Enrollment {
    /// The node had no name yet and takes the one it registered with.
    pub set_name: bool,
    /// The node had no position yet and takes the one it registered with.
    pub set_location: bool,
}

/// Why a registration was refused once its credential was known.
#[derive(Debug, Clone, Copy, PartialEq, Eq, Structural)]
pub enum EnrollmentRefusal {
    /// The credential is already bound to a different node identity.
    BoundElsewhere,
}

/// Bind a registering identity to the node its credential belongs to: refused
/// when the node is bound to another identity; otherwise the identity is
/// (re)bound, the name is filled in only where the node has none, and the
/// position only where the node has none and the request carries one.
pub fn plan_enrollment(
    bound_identity: Option<&str>,
    identity: &str,
    stored_name_empty: bool,
    stored_position_missing: bool,
    has_position: bool,
) -> (plan: Result<Enrollment, EnrollmentRefusal>)
    ensures
        plan is Err <==> (bound_identity matches Some(b) && b@ != identity@),
        plan matches Ok(e) ==> e.set_name == stored_name_empty && e.set_location == (has_position
            && stored_position_missing),
{
    match bound_identity {
        Some(bound) => if !same_text(bound, identity) {
            return Err(EnrollmentRefusal::BoundElsewhere);
        },
        None => {},
    }
    Ok(Enrollment { set_name: stored_name_empty, set_location: has_position && stored_position_missing })
}

/// The reporting cycle a node's configured interval gives, in milliseconds.
pub fn cycle_ms(interval_seconds: i32) -> (cycle: i64)
    ensures
        cycle == interval_seconds * 1000,
{
    (interval_seconds as i64) * 1000
}

/// Longest channel label a report may carry, in characters.
pub const MAX_LABEL_CHARS: usize = 100;

/// Why a channel of a report was refused.
#[derive(Debug, Clone, Copy, PartialEq, Eq, Structural)]
pub enum ChannelRefusal {
    /// The frequency does not fit in a signed 64-bit integer.
    FrequencyTooLarge,
    /// The label is longer than [`MAX_LABEL_CHARS`].
    LabelTooLong,
}

/// A reported channel as it is stored: its frequency, and its name, which is
/// the label or, without one, the frequency in hertz.
pub fn prepare_channel(frequency_hz: u64, label: &str) -> (prepared: Result<(i64, String), ChannelRefusal>)
    ensures
        frequency_hz > i64::MAX ==> prepared == Err::<(i64, String), ChannelRefusal>(
            ChannelRefusal::FrequencyTooLarge,
        ),
        frequency_hz <= i64::MAX && label@.len() > MAX_LABEL_CHARS ==> prepared == Err::<
            (i64, String),
            ChannelRefusal,
        >(ChannelRefusal::LabelTooLong),
        frequency_hz <= i64::MAX && label@.len() <= MAX_LABEL_CHARS ==> (prepared matches Ok((f, name))
            && f == frequency_hz && (if label@.len() == 0 {
            name@ == crate::text::decimal(frequency_hz as nat) + " Hz"@
        } else {
            name@ == label@
        })),
{
    if frequency_hz > 0x7fff_ffff_ffff_ffff {
        return Err(ChannelRefusal::FrequencyTooLarge);
    }
    if label.unicode_len() > MAX_LABEL_CHARS {
        return Err(ChannelRefusal::LabelTooLong);
    }
    Ok((frequency_hz as i64, crate::agent::channel_label(frequency_hz, label)))
}

/// Whether a stored node credential still opens the door at `now`: not
/// revoked, and either without an expiry or expiring later.
pub fn credential_live(revoked: bool, expires_at: Option<i64>, now: i64) -> (live: bool)
    ensures
        live == (!revoked && match expires_at {
            None => true,
            Some(at) => at > now,
        }),
{
    !revoked && match expires_at {
        None => true,
        Some(at) => at > now,
    }
}

/// Who an authenticated node is, and the cycle it reports on.
#[derive(Debug, Clone, Copy, PartialEq, Eq, Structural)]
pub struct NodeAuth {
    pub node_id: i64,
    pub cycle_ms: i64,
}

/// Why a node's call was not let in.
#[derive(Debug, Clone, Copy, PartialEq, Eq, Structural)]
pub enum AdmissionRefusal {
    /// No live credential matches.
    UnknownCredential,
    /// The node the credential belongs to is suspended.
    Suspended,
}

/// Let a node in from what its credential's lookup found: the node's id,
/// whether it is suspended, and its report interval in seconds.
pub fn let_in(found: Option<(i64, bool, i32)>) -> (admitted: Result<NodeAuth, AdmissionRefusal>)
    ensures
        match found {
            None => admitted == Err::<NodeAuth, AdmissionRefusal>(AdmissionRefusal::UnknownCredential),
            Some((node_id, suspended, interval_seconds)) => if suspended {
                admitted == Err::<NodeAuth, AdmissionRefusal>(AdmissionRefusal::Suspended)
            } else {
                admitted == Ok::<NodeAuth, AdmissionRefusal>(
                    NodeAuth { node_id, cycle_ms: (interval_seconds * 1000) as i64 },
                )
            },
        },
{
    match found {
        None => Err(AdmissionRefusal::UnknownCredential),
        Some((node_id, suspended, interval_seconds)) => if suspended {
            Err(AdmissionRefusal::Suspended)
        } else {
            Ok(NodeAuth { node_id, cycle_ms: cycle_ms(interval_seconds) })
        },
    }
}

/// Why one reading's summary was refused. The checks on the floating-point
/// figures are made before the report reaches this library; their verdicts
/// arrive as these values.
#[derive(Debug, Clone, Copy, PartialEq, Eq, Structural)]
pub enum StatsRefusal {
    Missing,
    NotFinite,
    MinAboveMax,
    MeanOutside,
    MedianOutside,
    P95Outside,
    NegativeSpread,
    NoSamples,
    UnknownMetric,
    OutOfRange,
}

/// What one channel of a report carries, as far as its checks go: where it
/// is, and each reading's verdict.
#[derive(Debug, Clone)]
pub struct ChannelCheck {
    pub frequency_hz: u64,
    pub modulation: Option<Modulation>,
    pub readings: Vec<Result<(), StatsRefusal>>,
}

/// Why a measurement report was refused.
#[derive(Debug, Clone, Copy, PartialEq, Eq, Structural)]
pub enum MeasurementRefusal {
    UnsupportedVersion,
    Window(WindowRefusal),
    NoChannels,
    Band(BandRefusal),
    NoReadings,
    Stats(StatsRefusal),
}

/// The first refused reading's verdict, if any.
pub open spec fn first_refusal(readings: Seq<Result<(), StatsRefusal>>) -> Option<StatsRefusal>
    decreases readings.len(),
{
    if readings.len() == 0 {
        None
    } else {
        match readings[0] {
            Err(refusal) => Some(refusal),
            Ok(()) => first_refusal(readings.skip(1)),
        }
    }
}

/// What one channel is answered: its band, then that it has readings, then
/// each reading in order.
pub open spec fn channel_verdict(channel: ChannelCheck) -> Result<(), MeasurementRefusal> {
    match band_check(channel.frequency_hz, channel.modulation) {
        Err(refusal) => Err(MeasurementRefusal::Band(refusal)),
        Ok(()) => if channel.readings@.len() == 0 {
            Err(MeasurementRefusal::NoReadings)
        } else {
            match first_refusal(channel.readings@) {
                Some(refusal) => Err(MeasurementRefusal::Stats(refusal)),
                None => Ok(()),
            }
        },
    }
}

/// The first refused channel's verdict, in order.
pub open spec fn channels_verdict(channels: Seq<ChannelCheck>) -> Result<(), MeasurementRefusal>
    decreases channels.len(),
{
    if channels.len() == 0 {
        Ok(())
    } else {
        match channel_verdict(channels[0]) {
            Err(refusal) => Err(refusal),
            Ok(()) => channels_verdict(channels.skip(1)),
        }
    }
}

/// What a measurement report is answered, checked in order: the version, the
/// window, that it has channels, then each channel.
pub open spec fn measurement_verdict(
    version: Seq<char>,
    expected: Seq<char>,
    start: Option<Stamp>,
    end: Option<Stamp>,
    channels: Seq<ChannelCheck>,
) -> Result<(), MeasurementRefusal> {
    if version != expected {
        Err(MeasurementRefusal::UnsupportedVersion)
    } else {
        match window_check(start, end) {
            Err(refusal) => Err(MeasurementRefusal::Window(refusal)),
            Ok(()) => if channels.len() == 0 {
                Err(MeasurementRefusal::NoChannels)
            } else {
                channels_verdict(channels)
            },
        }
    }
}

fn first_refused(readings: &Vec<Result<(), StatsRefusal>>) -> (found: Option<StatsRefusal>)
    ensures
        found == first_refusal(readings@),
{
    let mut i: usize = 0;
    assert(readings@.skip(0) =~= readings@);
    while i < readings.len()
        invariant
            i <= readings@.len(),
            first_refusal(readings@) == first_refusal(readings@.skip(i as int)),
        decreases readings@.len() - i,
    {
        assert(readings@.skip(i as int).skip(1) =~= readings@.skip(i + 1));
        match readings[i] {
            Err(refusal) => return Some(refusal),
            Ok(()) => {},
        }
        i = i + 1;
    }
    None
}

fn check_channel(channel: &ChannelCheck) -> (verdict: Result<(), MeasurementRefusal>)
    ensures
        verdict == channel_verdict(*channel),
{
    match check_band(channel.frequency_hz, channel.modulation) {
        Err(refusal) => return Err(MeasurementRefusal::Band(refusal)),
        Ok(()) => {},
    }
    if channel.readings.len() == 0 {
        return Err(MeasurementRefusal::NoReadings);
    }
    match first_refused(&channel.readings) {
        Some(refusal) => Err(MeasurementRefusal::Stats(refusal)),
        None => Ok(()),
    }
}

/// Validate a measurement report: its protocol version against the one this
/// server speaks, its window, and each channel and reading.
pub fn check_measurements(
    version: &str,
    expected: &str,
    start: Option<Stamp>,
    end: Option<Stamp>,
    channels: &Vec<ChannelCheck>,
) -> (verdict: Result<(), MeasurementRefusal>)
    ensures
        verdict == measurement_verdict(version@, expected@, start, end, channels@),
{
    if !check_version(version, expected) {
        return Err(MeasurementRefusal::UnsupportedVersion);
    }
    match check_window(start, end) {
        Err(refusal) => return Err(MeasurementRefusal::Window(refusal)),
        Ok(()) => {},
    }
    if channels.len() == 0 {
        return Err(MeasurementRefusal::NoChannels);
    }
    check_channels(channels)
}

fn check_channels(channels: &Vec<ChannelCheck>) -> (verdict: Result<(), MeasurementRefusal>)
    ensures
        verdict == channels_verdict(channels@),
{
    let mut i: usize = 0;
    assert(channels@.skip(0) =~= channels@);
    while i < channels.len()
        invariant
            i <= channels@.len(),
            channels_verdict(channels@) == channels_verdict(channels@.skip(i as int)),
        decreases channels@.len() - i,
    {
        assert(channels@.skip(i as int).skip(1) =~= channels@.skip(i + 1));
        match check_channel(&channels[i]) {
            Err(refusal) => return Err(refusal),
            Ok(()) => {},
        }
        i = i + 1;
    }
    assert(channels@.skip(i as int) =~= Seq::<ChannelCheck>::empty());
    Ok(())
}

/// Why a live sample was refused.
#[derive(Debug, Clone, Copy, PartialEq, Eq, Structural)]
pub enum LiveRefusal {
    UnsupportedVersion,
    Band(BandRefusal),
    NoReadings,
    /// A reading is not finite or lies outside its metric's range; the
    /// floating-point check is made before the sample reaches this library.
    ValueOutOfRange,
}

/// Validate a live sample: its version, its band, that it has readings, and
/// each reading's verdict (true where the value is acceptable).
pub fn check_live(
    version: &str,
    expected: &str,
    frequency_hz: u64,
    modulation: Option<Modulation>,
    readings: &Vec<bool>,
) -> (verdict: Result<(), LiveRefusal>)
    ensures
        version@ != expected@ ==> verdict == Err::<(), LiveRefusal>(LiveRefusal::UnsupportedVersion),
        version@ == expected@ ==> match band_check(frequency_hz, modulation) {
            Err(refusal) => verdict == Err::<(), LiveRefusal>(LiveRefusal::Band(refusal)),
            Ok(()) => if readings@.len() == 0 {
                verdict == Err::<(), LiveRefusal>(LiveRefusal::NoReadings)
            } else if readings@.contains(false) {
                verdict == Err::<(), LiveRefusal>(LiveRefusal::ValueOutOfRange)
            } else {
                verdict == Ok::<(), LiveRefusal>(())
            },
        },
{
    if !check_version(version, expected) {
        return Err(LiveRefusal::UnsupportedVersion);
    }
    match check_band(frequency_hz, modulation) {
        Err(refusal) => return Err(LiveRefusal::Band(refusal)),
        Ok(()) => {},
    }
    if readings.len() == 0 {
        return Err(LiveRefusal::NoReadings);
    }
    if !all_acceptable(readings) {
        return Err(LiveRefusal::ValueOutOfRange);
    }
    Ok(())
}

fn all_acceptable(readings: &Vec<bool>) -> (all: bool)
    ensures
        all == !readings@.contains(false),
{
    let mut i: usize = 0;
    while i < readings.len()
        invariant
            i <= readings@.len(),
            forall|k: int| 0 <= k < i ==> readings@[k],
        decreases readings@.len() - i,
    {
        if !readings[i] {
            assert(readings@[i as int] == false);
            return false;
        }
        i = i + 1;
    }
    true
}

} // verus!
