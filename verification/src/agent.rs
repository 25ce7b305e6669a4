//! The node agent's decisions around its calls to the server: whether to
//! resume or register, what a registration attempt ends in, and how a live
//! session paces the dwells it forwards. Instants are Unix milliseconds.
use std::collections::HashMap;

use vstd::prelude::*;
use vstd::string::StringExecFns;

use crate::identity::{generate, Identity};
use crate::random::{hex_of, is_lower_hex};
use crate::text::{decimal, push_decimal};

verus! {

broadcast use vstd::std_specs::hash::group_hash_axioms;

/// What the agent does about its identity at start-up.
#[derive(Debug, Clone, PartialEq, Eq)]
pub enum Enrolment {
    /// A stored identity: resume as that node.
    Resume(Identity),
    /// Nothing stored: register this fresh identity with the enrollment token.
    Register { identity: String, token: String },
}

/// Why the agent could not come up as a registered node.
#[derive(Debug, Clone, PartialEq, Eq)]
pub enum RegistrationError {
    /// No enrollment token was configured, so there is nothing to register with.
    MissingEnrollmentToken,
    /// The server already knows this identity, but this node no longer holds the credential.
    LostCredential { identity: String },
    /// The server refused the registration for another reason.
    Refused,
    /// The operating system's random source failed, so no identity could be made.
    NoRandomness,
}

/// What the server answered a registration.
#[derive(Debug, Clone, PartialEq, Eq)]
pub enum RegistrationAnswer {
    Registered { node_id: i64, credential: String },
    AlreadyExists,
    Refused,
}

/// Resume as the stored identity, or prepare to register a fresh one with
/// the configured enrollment token. A fresh identity needs the operating
/// system's random source; where that fails, so does this.
pub fn begin_registration(stored: Option<Identity>, token: Option<String>) -> (step: Result<
    Enrolment,
    RegistrationError,
>)
    ensures
        stored matches Some(s) ==> step == Ok::<Enrolment, RegistrationError>(Enrolment::Resume(s)),
        stored is None && token is None ==> step == Err::<Enrolment, RegistrationError>(
            RegistrationError::MissingEnrollmentToken,
        ),
        (stored is None && token is Some) ==> (step == Err::<Enrolment, RegistrationError>(
            RegistrationError::NoRandomness,
        ) || (step matches Ok(Enrolment::Register { identity, token: used }) && Some(used) == token
            && identity@.len() == 32 && is_lower_hex(identity@))),
{
    match stored {
        Some(identity) => Ok(Enrolment::Resume(identity)),
        None => match token {
            None => Err(RegistrationError::MissingEnrollmentToken),
            Some(token) => match generate() {
                Some(identity) => Ok(Enrolment::Register { identity, token }),
                None => Err(RegistrationError::NoRandomness),
            },
        },
    }
}

/// What a registration attempt ends in: the node's stored identity on
/// success; a lost credential when the server already knows the identity.
pub fn finish_registration(identity: String, answer: RegistrationAnswer) -> (outcome: Result<
    Identity,
    RegistrationError,
>)
    ensures
        match answer {
            RegistrationAnswer::Registered { node_id, credential } => outcome == Ok::<
                Identity,
                RegistrationError,
            >(Identity { identity, node_id, credential }),
            RegistrationAnswer::AlreadyExists => outcome == Err::<Identity, RegistrationError>(
                RegistrationError::LostCredential { identity },
            ),
            RegistrationAnswer::Refused => outcome == Err::<Identity, RegistrationError>(
                RegistrationError::Refused,
            ),
        },
{
    match answer {
        RegistrationAnswer::Registered { node_id, credential } => Ok(
            Identity { identity, node_id, credential },
        ),
        RegistrationAnswer::AlreadyExists => Err(RegistrationError::LostCredential { identity }),
        RegistrationAnswer::Refused => Err(RegistrationError::Refused),
    }
}

/// The `authorization` value a call carries.
pub fn bearer_value(credential: &str) -> (value: String)
    ensures
        value@ == "Bearer "@ + credential@,
{
    let mut value = String::from_str("Bearer ");
    value.append(credential);
    value
}

/// A live session as the agent runs it: when it ends, how often each
/// channel may be forwarded, and when each channel last was.
#[derive(Debug)]
pub struct LiveSession {
    pub id: u64,
    pub ends_ms: i64,
    pub interval_ms: i64,
    pub sent: HashMap<u64, i64>,
}

impl LiveSession {
    /// When each channel was last forwarded.
    pub open spec fn last_sent(&self) -> Map<u64, i64> {
        self.sent@
    }

    /// A session that starts now, lasts `remaining_ms` and forwards each
    /// channel at most once per `interval_ms`.
    pub fn start(id: u64, now_ms: i64, remaining_ms: i64, interval_ms: i64) -> (session: LiveSession)
        requires
            0 <= remaining_ms,
            now_ms + remaining_ms <= i64::MAX,
        ensures
            session.id == id,
            session.ends_ms == now_ms + remaining_ms,
            session.interval_ms == interval_ms,
            session.last_sent() == Map::<u64, i64>::empty(),
    {
        LiveSession { id, ends_ms: now_ms + remaining_ms, interval_ms, sent: HashMap::new() }
    }

    /// Whether the session still runs at `now_ms`.
    pub fn running(&self, now_ms: i64) -> (live: bool)
        ensures
            live == (now_ms < self.ends_ms),
    {
        now_ms < self.ends_ms
    }

    /// Whether a dwell on `frequency_hz` is forwarded at `now_ms`: unless the
    /// channel was forwarded less than an interval ago. A forwarded dwell
    /// restarts the channel's interval.
    pub fn due(&mut self, frequency_hz: u64, now_ms: i64) -> (forward: bool)
        ensures
            forward == !(old(self).last_sent().contains_key(frequency_hz) && now_ms - old(
                self,
            ).last_sent()[frequency_hz] < old(self).interval_ms),
            forward ==> final(self).last_sent() == old(self).last_sent().insert(frequency_hz, now_ms),
            !forward ==> final(self).last_sent() == old(self).last_sent(),
            final(self).id == old(self).id,
            final(self).ends_ms == old(self).ends_ms,
            final(self).interval_ms == old(self).interval_ms,
    {
        match self.sent.get(&frequency_hz) {
            Some(last) => {
                let last = *last;
                if (now_ms as i128) - (last as i128) < self.interval_ms as i128 {
                    return false;
                }
            },
            None => {},
        }
        self.sent.insert(frequency_hz, now_ms);
        true
    }
}

/// How a forwarded dwell fared.
#[derive(Debug, Clone, Copy, PartialEq, Eq, Structural)]
pub enum Delivery {
    /// The server took it, answering with the session it holds for the node.
    Acknowledged { session_id: u64 },
    /// The server refused this one dwell.
    Refused,
    /// The call could not be made.
    Failed,
}

/// Whether the session goes on after a delivery: only while the server still
/// names it, and through a refused dwell; not after a failed call.
pub fn keeps_session(session_id: u64, delivery: Delivery) -> (keep: bool)
    ensures
        keep == match delivery {
            Delivery::Acknowledged { session_id: answered } => answered == session_id,
            Delivery::Refused => true,
            Delivery::Failed => false,
        },
{
    match delivery {
        Delivery::Acknowledged { session_id: answered } => answered == session_id,
        Delivery::Refused => true,
        Delivery::Failed => false,
    }
}

/// What stays in the offline journal after the first `delivered` reports
/// went through: the rest, in order.
pub fn undelivered<T>(pending: Vec<T>, delivered: usize) -> (rest: Vec<T>)
    requires
        delivered <= pending@.len(),
    ensures
        rest@ == pending@.skip(delivered as int),
{
    let mut pending = pending;
    pending.split_off(delivered)
}

/// Whether the plan the server serves replaces the one the agent runs.
pub fn plan_changed(known_version: u64, served_version: u64) -> (changed: bool)
    ensures
        changed == (known_version != served_version),
{
    known_version != served_version
}

/// What a planned channel is called: its label, or its frequency when the
/// plan gives none.
pub fn channel_label(frequency_hz: u64, label: &str) -> (name: String)
    ensures
        label@.len() == 0 ==> name@ == decimal(frequency_hz as nat) + " Hz"@,
        label@.len() > 0 ==> name@ == label@,
{
    if label.is_empty() {
        let mut name = String::new();
        push_decimal(&mut name, frequency_hz);
        name.append(" Hz");
        name
    } else {
        label.to_string()
    }
}

} // verus!
