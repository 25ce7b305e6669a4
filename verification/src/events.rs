//! What an open dashboard is told as it happens: node and alarm events, and
//! which of them a viewer gets to see. Instants are Unix seconds.
use vstd::prelude::*;

use crate::enums::{AlarmState, Metric};
use crate::templates::AlarmStub;
use crate::visibility::Visibility;

verus! {

/// Something changed about a node that an open dashboard should see.
#[derive(Debug, Clone, Copy, PartialEq, Eq, Structural)]
pub enum NodeEvent {
    Reported { node_id: i64, at: i64 },
    Silent { node_id: i64, since: i64 },
    SuspensionChanged { node_id: i64, suspended: bool },
}

impl NodeEvent {
    pub open spec fn node_of(self) -> i64 {
        match self {
            NodeEvent::Reported { node_id, .. } => node_id,
            NodeEvent::Silent { node_id, .. } => node_id,
            NodeEvent::SuspensionChanged { node_id, .. } => node_id,
        }
    }

    /// The node the event is about.
    pub fn node_id(&self) -> (id: i64)
        ensures
            id == self.node_of(),
    {
        match *self {
            NodeEvent::Reported { node_id, .. } => node_id,
            NodeEvent::Silent { node_id, .. } => node_id,
            NodeEvent::SuspensionChanged { node_id, .. } => node_id,
        }
    }

    /// The state badge the event draws, and the instant it shows, if any.
    pub fn status(&self) -> (badge: (&'static str, Option<i64>))
        ensures
            match *self {
                NodeEvent::Reported { at, .. } => badge.0@ == "reporting"@ && badge.1 == Some(at),
                NodeEvent::Silent { since, .. } => badge.0@ == "silent"@ && badge.1 == Some(since),
                NodeEvent::SuspensionChanged { suspended, .. } => badge.0@ == (if suspended {
                    "suspended"@
                } else {
                    "reporting"@
                }) && badge.1 is None,
            },
    {
        match *self {
            NodeEvent::Reported { at, .. } => ("reporting", Some(at)),
            NodeEvent::Silent { since, .. } => ("silent", Some(since)),
            NodeEvent::SuspensionChanged { suspended, .. } => (
                if suspended {
                    "suspended"
                } else {
                    "reporting"
                },
                None,
            ),
        }
    }
}

/// Something changed about an alarm that an open dashboard should see.
#[derive(Debug, Clone, Copy, PartialEq, Eq, Structural)]
pub enum AlarmEvent {
    Raised { alarm_id: i64, node_id: i64, metric: Option<Metric> },
    StateChanged { alarm_id: i64, node_id: i64, from: AlarmState, to: AlarmState },
}

impl AlarmEvent {
    pub open spec fn node_of(self) -> i64 {
        match self {
            AlarmEvent::Raised { node_id, .. } => node_id,
            AlarmEvent::StateChanged { node_id, .. } => node_id,
        }
    }

    pub open spec fn alarm_of(self) -> i64 {
        match self {
            AlarmEvent::Raised { alarm_id, .. } => alarm_id,
            AlarmEvent::StateChanged { alarm_id, .. } => alarm_id,
        }
    }

    /// The node the alarm is on.
    pub fn node_id(&self) -> (id: i64)
        ensures
            id == self.node_of(),
    {
        match *self {
            AlarmEvent::Raised { node_id, .. } => node_id,
            AlarmEvent::StateChanged { node_id, .. } => node_id,
        }
    }

    /// The alarm the event is about.
    pub fn alarm_id(&self) -> (id: i64)
        ensures
            id == self.alarm_of(),
    {
        match *self {
            AlarmEvent::Raised { alarm_id, .. } => alarm_id,
            AlarmEvent::StateChanged { alarm_id, .. } => alarm_id,
        }
    }

    /// The placeholder pushed to the feed: a new entry for a raised alarm,
    /// a replacement for one whose state changed.
    pub fn stub(&self) -> (stub: AlarmStub)
        ensures
            stub.alarm_id == self.alarm_of(),
            stub.replace == (*self is StateChanged),
    {
        AlarmStub { alarm_id: self.alarm_id(), replace: matches!(*self, AlarmEvent::StateChanged { .. }) }
    }
}

/// Whether a viewer is shown an event about `node_id`.
pub fn relays(visibility: &Visibility, node_id: i64) -> (shown: bool)
    ensures
        shown == visibility.shows(node_id),
{
    visibility.allows(node_id)
}

} // verus!
