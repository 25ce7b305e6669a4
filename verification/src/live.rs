//! Live inspection sessions: which nodes an open dashboard panel is
//! watching, which command each node's stream should receive, and when a
//! session lapses.
//!
//! The bookkeeping is a state machine over plain values. The caller owns the
//! command streams themselves: it delivers the [`Command`] a method returns,
//! reports a stream that went away through [`Sessions::stream_lost`], and
//! passes the clock in as milliseconds since the Unix epoch.
use vstd::prelude::*;

verus! {

/// How long a session runs before the open panel has to renew it, in milliseconds.
pub const SESSION_TTL_MS: i64 = 45_000;

/// How often the server asks an inspected node to sample, in milliseconds.
pub const SAMPLE_INTERVAL_MS: u32 = 1_000;

/// One running inspection of one node.
#[derive(Debug, Clone, Copy, PartialEq, Eq, Structural)]
pub struct Session {
    /// Identifies the session to the node, which echoes it on every sample.
    pub id: u64,
    /// When the session lapses unless renewed, in Unix milliseconds.
    pub expires_at_ms: i64,
}

/// Whether a node could be reached when a session was asked for.
#[derive(Debug, Clone, Copy, PartialEq, Eq, Structural)]
pub enum Reach {
    Told,
    Absent,
}

/// What the server sends down one node's command stream.
#[derive(Debug, Clone, Copy, PartialEq, Eq, Structural)]
pub enum Command {
    /// Sample for this session until it expires.
    Sample { session_id: u64, min_interval_ms: u32, expires_at_ms: i64 },
    /// Stop sampling.
    Stop,
}

/// What the server knows about one node's live channel.
#[derive(Debug, Clone, Copy, PartialEq, Eq, Structural)]
pub struct NodeLive {
    /// Whether the node holds an open command stream.
    pub watching: bool,
    /// The session most recently opened on the node, if any.
    pub session: Option<Session>,
}

/// The session, if it is still running at `now_ms`.
pub open spec fn live_at(session: Option<Session>, now_ms: i64) -> Option<Session> {
    match session {
        Some(s) => if s.expires_at_ms > now_ms {
            Some(s)
        } else {
            None
        },
        None => None,
    }
}

/// The command that starts or renews `session` on a node.
pub open spec fn sample_command(session: Session) -> Command {
    Command::Sample {
        session_id: session.id,
        min_interval_ms: SAMPLE_INTERVAL_MS,
        expires_at_ms: session.expires_at_ms,
    }
}

/// When a session opened at `now_ms` lapses: one TTL later, or at once
/// where that instant is past the clock's range.
pub open spec fn expiry_after(now_ms: i64) -> i64 {
    if now_ms + SESSION_TTL_MS <= i64::MAX {
        (now_ms + SESSION_TTL_MS) as i64
    } else {
        now_ms
    }
}

/// The entry recorded for `node_id`, the last one for that id in `nodes`.
pub open spec fn entry_of(nodes: Seq<(i64, NodeLive)>, node_id: i64) -> Option<NodeLive>
    decreases nodes.len(),
{
    if nodes.len() == 0 {
        None
    } else if nodes.last().0 == node_id {
        Some(nodes.last().1)
    } else {
        entry_of(nodes.drop_last(), node_id)
    }
}

/// No node id occurs twice.
pub open spec fn distinct_ids(nodes: Seq<(i64, NodeLive)>) -> bool {
    forall|i: int, j: int| 0 <= i < j < nodes.len() ==> nodes[i].0 != nodes[j].0
}

proof fn lemma_entry_at(nodes: Seq<(i64, NodeLive)>, node_id: i64)
    requires
        distinct_ids(nodes),
    ensures
        forall|i: int|
            0 <= i < nodes.len() && nodes[i].0 == node_id ==> entry_of(nodes, node_id) == Some(
                nodes[i].1,
            ),
        (forall|i: int| 0 <= i < nodes.len() ==> nodes[i].0 != node_id) ==> entry_of(
            nodes,
            node_id,
        ) is None,
    decreases nodes.len(),
{
    if nodes.len() > 0 {
        let rest = nodes.drop_last();
        assert(distinct_ids(rest));
        lemma_entry_at(rest, node_id);
        assert forall|i: int| 0 <= i < nodes.len() && nodes[i].0 == node_id implies entry_of(
            nodes,
            node_id,
        ) == Some(nodes[i].1) by {
            if i < nodes.len() - 1 {
                assert(rest[i] == nodes[i]);
                assert(nodes.last().0 != node_id);
            }
        }
        if forall|i: int| 0 <= i < nodes.len() ==> nodes[i].0 != node_id {
            assert(nodes.last().0 != node_id);
            assert forall|i: int| 0 <= i < rest.len() implies rest[i].0 != node_id by {
                assert(rest[i] == nodes[i]);
            }
        }
    }
}

proof fn lemma_entry_update(nodes: Seq<(i64, NodeLive)>, index: int, live: NodeLive, node_id: i64)
    requires
        distinct_ids(nodes),
        0 <= index < nodes.len(),
    ensures
        distinct_ids(nodes.update(index, (nodes[index].0, live))),
        entry_of(nodes.update(index, (nodes[index].0, live)), node_id) == if node_id
            == nodes[index].0 {
            Some(live)
        } else {
            entry_of(nodes, node_id)
        },
{
    let updated = nodes.update(index, (nodes[index].0, live));
    assert forall|i: int| 0 <= i < nodes.len() implies #[trigger] updated[i].0 == nodes[i].0 by {}
    assert(distinct_ids(updated));
    lemma_entry_at(nodes, node_id);
    lemma_entry_at(updated, node_id);
    if node_id == nodes[index].0 {
        assert(updated[index].0 == node_id && updated[index].1 == live);
    } else if exists|i: int| 0 <= i < nodes.len() && nodes[i].0 == node_id {
        let i = choose|i: int| 0 <= i < nodes.len() && nodes[i].0 == node_id;
        assert(updated[i] == nodes[i]);
    } else {
        assert forall|i: int| 0 <= i < updated.len() implies updated[i].0 != node_id by {
            assert(updated[i].0 == nodes[i].0);
        }
    }
}

/// Every node's live channel.
pub struct Sessions {
    nodes: Vec<(i64, NodeLive)>,
    next_id: u64,
}

impl Sessions {
    /// The node ids known, each with what is known of its live channel.
    pub closed spec fn entries(&self) -> Seq<(i64, NodeLive)> {
        self.nodes@
    }

    /// What is known of one node's live channel.
    pub open spec fn entry(&self, node_id: i64) -> Option<NodeLive> {
        entry_of(self.entries(), node_id)
    }

    /// The id the next fresh session will carry.
    pub closed spec fn next_session_id(&self) -> u64 {
        self.next_id
    }

    /// The session running on `node_id` at `now_ms`, if any.
    pub open spec fn running(&self, node_id: i64, now_ms: i64) -> Option<Session> {
        match self.entry(node_id) {
            Some(live) => live_at(live.session, now_ms),
            None => None,
        }
    }

    /// Every node id occurs once.
    pub closed spec fn well_formed(&self) -> bool {
        distinct_ids(self.nodes@)
    }

    /// No node is known yet; the first session will carry id 1.
    pub fn new() -> (sessions: Self)
        ensures
            sessions.well_formed(),
            forall|node_id: i64| sessions.entry(node_id) is None,
            sessions.next_session_id() == 1,
    {
        Sessions { nodes: Vec::new(), next_id: 1 }
    }

    fn find(&self, node_id: i64) -> (index: Option<usize>)
        requires
            self.well_formed(),
        ensures
            match index {
                Some(i) => i < self.nodes@.len() && self.nodes@[i as int].0 == node_id
                    && self.entry(node_id) == Some(self.nodes@[i as int].1),
                None => self.entry(node_id) is None && forall|j: int|
                    0 <= j < self.nodes@.len() ==> self.nodes@[j].0 != node_id,
            },
    {
        let mut i: usize = 0;
        while i < self.nodes.len()
            invariant
                self.well_formed(),
                0 <= i <= self.nodes@.len(),
                forall|j: int| 0 <= j < i ==> self.nodes@[j].0 != node_id,
            decreases self.nodes@.len() - i,
        {
            if self.nodes[i].0 == node_id {
                proof {
                    lemma_entry_at(self.nodes@, node_id);
                }
                return Some(i);
            }
            i = i + 1;
        }
        proof {
            lemma_entry_at(self.nodes@, node_id);
        }
        None
    }

    /// Record `live` for `node_id`, leaving every other node as it was.
    fn store(&mut self, node_id: i64, live: NodeLive)
        requires
            old(self).well_formed(),
        ensures
            final(self).well_formed(),
            final(self).next_session_id() == old(self).next_session_id(),
            forall|other: i64| #[trigger]
                final(self).entry(other) == if other == node_id {
                    Some(live)
                } else {
                    old(self).entry(other)
                },
    {
        match self.find(node_id) {
            Some(i) => {
                proof {
                    assert forall|other: i64| #[trigger]
                        entry_of(self.nodes@.update(i as int, (self.nodes@[i as int].0, live)), other)
                            == if other == node_id {
                            Some(live)
                        } else {
                            entry_of(self.nodes@, other)
                        } by {
                        lemma_entry_update(self.nodes@, i as int, live, other);
                    }
                    lemma_entry_update(self.nodes@, i as int, live, node_id);
                }
                self.nodes.set(i, (node_id, live));
            },
            None => {
                self.nodes.push((node_id, live));
                assert(self.nodes@.drop_last() =~= old(self).nodes@);
            },
        }
    }

    /// Register a node's command stream. A session already running there is
    /// returned as the command the new stream should receive at once.
    pub fn watch(&mut self, node_id: i64, now_ms: i64) -> (command: Option<Command>)
        requires
            old(self).well_formed(),
        ensures
            final(self).well_formed(),
            final(self).next_session_id() == old(self).next_session_id(),
            final(self).entry(node_id) == Some(
                NodeLive {
                    watching: true,
                    session: match old(self).entry(node_id) {
                        Some(live) => live.session,
                        None => None,
                    },
                },
            ),
            forall|other: i64| other != node_id ==> #[trigger] final(self).entry(other) == old(
                self,
            ).entry(other),
            command == match old(self).running(node_id, now_ms) {
                Some(session) => Some(sample_command(session)),
                None => None,
            },
    {
        let session = match self.find(node_id) {
            Some(i) => self.nodes[i].1.session,
            None => None,
        };
        self.store(node_id, NodeLive { watching: true, session });
        match running(session, now_ms) {
            Some(s) => Some(command(s)),
            None => None,
        }
    }

    /// Start a session on this node, or push a running one's expiry out.
    /// A running session keeps its id; otherwise the session takes the next
    /// fresh id. The node is told only if it holds a command stream.
    pub fn open(&mut self, node_id: i64, now_ms: i64) -> (outcome: (Reach, Option<Command>))
        requires
            old(self).well_formed(),
        ensures
            final(self).well_formed(),
            ({
                let id = match old(self).running(node_id, now_ms) {
                    Some(session) => session.id,
                    None => old(self).next_session_id(),
                };
                let session = Session { id, expires_at_ms: expiry_after(now_ms) };
                let watching = match old(self).entry(node_id) {
                    Some(live) => live.watching,
                    None => false,
                };
                &&& final(self).entry(node_id) == Some(
                    NodeLive { watching, session: Some(session) },
                )
                &&& outcome == if watching {
                    (Reach::Told, Some(sample_command(session)))
                } else {
                    (Reach::Absent, None)
                }
                &&& final(self).next_session_id() == if old(self).running(node_id, now_ms) is Some {
                    old(self).next_session_id()
                } else {
                    if old(self).next_session_id() == u64::MAX {
                        0
                    } else {
                        (old(self).next_session_id() + 1) as u64
                    }
                }
            }),
            forall|other: i64| other != node_id ==> #[trigger] final(self).entry(other) == old(
                self,
            ).entry(other),
    {
        let (watching, previous) = match self.find(node_id) {
            Some(i) => (self.nodes[i].1.watching, self.nodes[i].1.session),
            None => (false, None),
        };
        let id = match running(previous, now_ms) {
            Some(s) => s.id,
            None => {
                let fresh = self.next_id;
                self.next_id = self.next_id.wrapping_add(1);
                fresh
            },
        };
        let expires_at_ms = match now_ms.checked_add(SESSION_TTL_MS) {
            Some(at) => at,
            None => now_ms,
        };
        let session = Session { id, expires_at_ms };
        self.store(node_id, NodeLive { watching, session: Some(session) });
        if !watching {
            return (Reach::Absent, None);
        }
        (Reach::Told, Some(command(session)))
    }

    /// End a session on this node. A node holding a stream is told to stop.
    pub fn close(&mut self, node_id: i64) -> (command: Option<Command>)
        requires
            old(self).well_formed(),
        ensures
            final(self).well_formed(),
            final(self).next_session_id() == old(self).next_session_id(),
            final(self).entry(node_id) == match old(self).entry(node_id) {
                Some(live) => Some(NodeLive { watching: live.watching, session: None }),
                None => None,
            },
            forall|other: i64| other != node_id ==> #[trigger] final(self).entry(other) == old(
                self,
            ).entry(other),
            command == match old(self).entry(node_id) {
                Some(live) => if live.watching {
                    Some(Command::Stop)
                } else {
                    None
                },
                None => None,
            },
    {
        let watching = match self.find(node_id) {
            Some(i) => self.nodes[i].1.watching,
            None => return None,
        };
        self.store(node_id, NodeLive { watching, session: None });
        if watching {
            Some(Command::Stop)
        } else {
            None
        }
    }

    /// Forget a node's command stream: it closed, or a command could not be
    /// delivered on it.
    pub fn stream_lost(&mut self, node_id: i64)
        requires
            old(self).well_formed(),
        ensures
            final(self).well_formed(),
            final(self).next_session_id() == old(self).next_session_id(),
            final(self).entry(node_id) == match old(self).entry(node_id) {
                Some(live) => Some(NodeLive { watching: false, session: live.session }),
                None => None,
            },
            forall|other: i64| other != node_id ==> #[trigger] final(self).entry(other) == old(
                self,
            ).entry(other),
    {
        let session = match self.find(node_id) {
            Some(i) => self.nodes[i].1.session,
            None => return,
        };
        self.store(node_id, NodeLive { watching: false, session });
    }

    /// Whether this node is running the session a sample claims.
    pub fn accepts(&self, node_id: i64, session_id: u64, now_ms: i64) -> (accepted: bool)
        requires
            self.well_formed(),
        ensures
            accepted == (self.running(node_id, now_ms) matches Some(session) && session.id
                == session_id),
    {
        match self.find(node_id) {
            Some(i) => match running(self.nodes[i].1.session, now_ms) {
                Some(session) => session.id == session_id,
                None => false,
            },
            None => false,
        }
    }

    /// Whether anybody is inspecting this node right now.
    pub fn is_open(&self, node_id: i64, now_ms: i64) -> (open: bool)
        requires
            self.well_formed(),
        ensures
            open == self.running(node_id, now_ms) is Some,
    {
        match self.find(node_id) {
            Some(i) => running(self.nodes[i].1.session, now_ms).is_some(),
            None => false,
        }
    }

    /// Stop every session whose expiry has passed, telling each node that
    /// holds a stream, and forget every node with neither a stream nor a session.
    pub fn sweep(&mut self, now_ms: i64) -> (stops: Vec<i64>)
        requires
            old(self).well_formed(),
        ensures
            final(self).well_formed(),
            final(self).next_session_id() == old(self).next_session_id(),
            forall|node_id: i64| #[trigger]
                final(self).entry(node_id) == swept(old(self).entry(node_id), now_ms),
            forall|node_id: i64|
                stops@.contains(node_id) <==> (old(self).entry(node_id) matches Some(live)
                    && live.watching && live.session is Some && live_at(live.session, now_ms)
                    is None),
    {
        let mut kept: Vec<(i64, NodeLive)> = Vec::new();
        let mut stops: Vec<i64> = Vec::new();
        let mut i: usize = 0;
        while i < self.nodes.len()
            invariant
                distinct_ids(self.nodes@),
                0 <= i <= self.nodes@.len(),
                distinct_ids(kept@),
                forall|j: int|
                    0 <= j < kept@.len() ==> exists|k: int|
                        0 <= k < i && #[trigger] kept@[j].0 == self.nodes@[k].0,
                forall|node_id: i64| #[trigger]
                    entry_of(kept@, node_id) == swept(entry_of(self.nodes@.take(i as int), node_id), now_ms),
                forall|node_id: i64|
                    stops@.contains(node_id) <==> (entry_of(self.nodes@.take(i as int), node_id) matches Some(live)
                        && live.watching && live.session is Some && live_at(live.session, now_ms)
                        is None),
            decreases self.nodes@.len() - i,
        {
            let (node_id, live) = self.nodes[i];
            let expired = live.session.is_some() && running(live.session, now_ms).is_none();
            let session = if expired {
                None
            } else {
                live.session
            };
            let after = NodeLive { watching: live.watching, session };
            proof {
                let before = self.nodes@.take(i as int);
                let next = self.nodes@.take(i + 1);
                assert(next.drop_last() =~= before);
                assert(next.last() == (node_id, live));
                assert forall|other: i64| #[trigger] entry_of(before, other) is Some implies other != node_id by {
                    lemma_entry_at(before, other);
                    assert(distinct_ids(before));
                    if other == node_id {
                        let k = choose|k: int| 0 <= k < before.len() && before[k].0 == other;
                        assert(self.nodes@[k].0 == self.nodes@[i as int].0);
                    }
                }
            }
            let ghost kept_before = kept@;
            let ghost stops_before = stops@;
            if expired && live.watching {
                stops.push(node_id);
            }
            if after.watching || after.session.is_some() {
                proof {
                    assert forall|j: int| 0 <= j < kept@.len() implies kept@[j].0 != node_id by {
                        let k = choose|k: int| 0 <= k < i && kept@[j].0 == self.nodes@[k].0;
                        assert(self.nodes@[k].0 != self.nodes@[i as int].0);
                    }
                }
                kept.push((node_id, after));
            }
            proof {
                let before = self.nodes@.take(i as int);
                let next = self.nodes@.take(i + 1);
                assert forall|other: i64| #[trigger] entry_of(kept@, other) == swept(
                    entry_of(next, other),
                    now_ms,
                ) by {
                    if other != node_id {
                        assert(entry_of(next, other) == entry_of(before, other));
                        if after.watching || after.session.is_some() {
                            assert(kept@.drop_last() =~= kept_before);
                            assert(kept@.last().0 == node_id);
                            assert(entry_of(kept@, other) == entry_of(kept_before, other));
                        }
                    } else {
                        assert(entry_of(next, other) == Some(live));
                        assert(entry_of(before, other) is None);
                    }
                }
                assert forall|other: i64|
                    stops@.contains(other) <==> (entry_of(next, other) matches Some(l) && l.watching
                        && l.session is Some && live_at(l.session, now_ms) is None) by {
                    if other != node_id {
                        assert(entry_of(next, other) == entry_of(before, other));
                        if expired && live.watching {
                            assert(stops@.contains(other) == stops_before.contains(other)) by {
                                if stops_before.contains(other) {
                                    let k = choose|k: int| 0 <= k < stops_before.len() && stops_before[k] == other;
                                    assert(stops@[k] == other);
                                }
                                if stops@.contains(other) {
                                    let k = choose|k: int| 0 <= k < stops@.len() && stops@[k] == other;
                                    assert(k < stops_before.len());
                                    assert(stops_before[k] == other);
                                }
                            }
                        }
                    } else {
                        assert(entry_of(next, other) == Some(live));
                        assert(entry_of(before, other) is None);
                        if expired && live.watching {
                            assert(stops@[stops@.len() - 1] == other);
                        }
                    }
                }
            }
            i = i + 1;
        }
        proof {
            assert(self.nodes@.take(self.nodes@.len() as int) =~= self.nodes@);
        }
        self.nodes = kept;
        stops
    }
}

/// What a sweep at `now_ms` leaves of one node's entry: an expired session
/// is dropped, and a node left with neither stream nor session is forgotten.
pub open spec fn swept(entry: Option<NodeLive>, now_ms: i64) -> Option<NodeLive> {
    match entry {
        Some(live) => {
            let session = if live.session is Some && live_at(live.session, now_ms) is None {
                None
            } else {
                live.session
            };
            if live.watching || session is Some {
                Some(NodeLive { watching: live.watching, session })
            } else {
                None
            }
        },
        None => None,
    }
}

/// The session, if it is still running at `now_ms`.
pub fn running(session: Option<Session>, now_ms: i64) -> (live: Option<Session>)
    ensures
        live == live_at(session, now_ms),
{
    match session {
        Some(s) => if s.expires_at_ms > now_ms {
            Some(s)
        } else {
            None
        },
        None => None,
    }
}

/// The command that starts or renews `session` on a node.
pub fn command(session: Session) -> (command: Command)
    ensures
        command == sample_command(session),
{
    Command::Sample {
        session_id: session.id,
        min_interval_ms: SAMPLE_INTERVAL_MS,
        expires_at_ms: session.expires_at_ms,
    }
}

} // verus!
