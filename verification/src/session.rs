//! Client session: per-connection state on the push channel.
//!
//! A session connects, requests a full snapshot, then applies
//! incremental change records in sequence order.  A record that skips
//! ahead of the last seen sequence number signals a missed delivery:
//! the session goes back to syncing and requests a fresh snapshot
//! rather than applying out of order.  Reconnection always starts from
//! a fresh snapshot; nothing survives a disconnect.

use vstd::prelude::*;

verus! {

/// Where a session stands.
#[derive(Clone, Copy, PartialEq, Eq, Structural, Debug)]
pub enum SessionState {
    /// Transport not yet established.
    Connecting,
    /// Waiting for a full snapshot.
    Syncing,
    /// Applying incremental records.
    Live,
    /// Torn down; a reconnect starts over.
    Disconnected,
}

/// What the transport hands the session.
#[derive(Clone, Copy, PartialEq, Eq, Structural, Debug)]
pub enum SessionEvent {
    /// The connection is up.
    Connected,
    /// A full snapshot taken at this sequence number.
    Snapshot { seq: u64 },
    /// One change record with its sequence number.
    Record { seq: u64 },
    /// The connection is gone.
    ConnectionLost,
}

/// What the caller must do after a step.
#[derive(Clone, Copy, PartialEq, Eq, Structural, Debug)]
pub enum SessionAction {
    /// Nothing to do.
    Ignore,
    /// Ask the hub for a full snapshot.
    RequestSnapshot,
    /// Replace local state with the snapshot.
    ApplySnapshot,
    /// Apply the record to local state.
    ApplyRecord,
    /// A gap was seen: discard local state and ask for a fresh snapshot.
    Resync,
}

/// One client's connection state.
#[derive(Clone, Copy, PartialEq, Eq, Structural, Debug)]
pub struct Session {
    /// Where the session stands.
    pub state: SessionState,
    /// The sequence number of the last applied snapshot or record.
    pub last_seq: u64,
}

/// The whole state machine: next session and required action for one
/// event.  Records apply only in `Live`, only in order; a duplicate or
/// stale record is ignored; a gap forces a resync through `Syncing`.
pub open spec fn step_spec(s: Session, ev: SessionEvent) -> (Session, SessionAction) {
    match ev {
        SessionEvent::ConnectionLost => (
            Session { state: SessionState::Disconnected, ..s },
            SessionAction::Ignore,
        ),
        SessionEvent::Connected => match s.state {
            SessionState::Connecting | SessionState::Disconnected => (
                Session { state: SessionState::Syncing, ..s },
                SessionAction::RequestSnapshot,
            ),
            _ => (s, SessionAction::Ignore),
        },
        SessionEvent::Snapshot { seq } => match s.state {
            SessionState::Syncing => (
                Session { state: SessionState::Live, last_seq: seq },
                SessionAction::ApplySnapshot,
            ),
            _ => (s, SessionAction::Ignore),
        },
        SessionEvent::Record { seq } => match s.state {
            SessionState::Live => {
                if seq <= s.last_seq {
                    (s, SessionAction::Ignore)
                } else if seq == s.last_seq + 1 {
                    (Session { state: SessionState::Live, last_seq: seq }, SessionAction::ApplyRecord)
                } else {
                    (Session { state: SessionState::Syncing, ..s }, SessionAction::Resync)
                }
            },
            _ => (s, SessionAction::Ignore),
        },
    }
}

impl Session {
    /// A fresh, not yet connected session.
    pub fn new() -> (s: Session)
        ensures
            s.state is Connecting,
            s.last_seq == 0,
    {
        Session { state: SessionState::Connecting, last_seq: 0 }
    }

    /// Feeds one event through the state machine and says what to do.
    pub fn step(&mut self, ev: SessionEvent) -> (action: SessionAction)
        ensures
            (*final(self), action) == step_spec(*old(self), ev),
    {
        match ev {
            SessionEvent::ConnectionLost => {
                self.state = SessionState::Disconnected;
                SessionAction::Ignore
            },
            SessionEvent::Connected => match self.state {
                SessionState::Connecting | SessionState::Disconnected => {
                    self.state = SessionState::Syncing;
                    SessionAction::RequestSnapshot
                },
                _ => SessionAction::Ignore,
            },
            SessionEvent::Snapshot { seq } => match self.state {
                SessionState::Syncing => {
                    self.state = SessionState::Live;
                    self.last_seq = seq;
                    SessionAction::ApplySnapshot
                },
                _ => SessionAction::Ignore,
            },
            SessionEvent::Record { seq } => match self.state {
                SessionState::Live => {
                    if seq <= self.last_seq {
                        SessionAction::Ignore
                    } else if seq == self.last_seq + 1 {
                        self.last_seq = seq;
                        SessionAction::ApplyRecord
                    } else {
                        self.state = SessionState::Syncing;
                        SessionAction::Resync
                    }
                },
                _ => SessionAction::Ignore,
            },
        }
    }
}

/// Law: a record is applied exactly when the session is live and the
/// record is the direct successor of the last seen sequence number;
/// a gap never applies and always sends the session back to syncing.
pub proof fn lemma_gap_forces_resync(s: Session, seq: u64)
    ensures
        step_spec(s, SessionEvent::Record { seq }).1 is ApplyRecord <==> (s.state is Live && seq
            == s.last_seq + 1),
        s.state is Live && seq > s.last_seq + 1 ==> step_spec(s, SessionEvent::Record { seq }).1
            is Resync && step_spec(s, SessionEvent::Record { seq }).0.state is Syncing,
{
}

} // verus!
