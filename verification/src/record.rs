//! Change records: what the pipeline tells subscribers about a mutation.
//!
//! One record per applied mutation, tagged with the event's sequence
//! number.  Per event the numbers are strictly increasing, so a
//! subscriber that sees a gap knows it missed a record and must resync.
//! A record names the touched question; a client fetches fresh state
//! if it needs more than the record carries.

use vstd::prelude::*;

verus! {

/// A moderator command on one question.
#[derive(Clone, Copy, PartialEq, Eq, Structural, Debug)]
pub enum ModAction {
    /// Take the question off the public view.
    Hide,
    /// Put a hidden question back on the public view.
    Show,
    /// Mark the question answered.
    Answer,
    /// Remove the question from the event.
    Delete,
}

/// What one applied mutation did.
#[derive(Clone, Copy, PartialEq, Eq, Structural, Debug)]
pub enum ChangePayload {
    /// A question entered the event.
    QuestionAdded { question_id: u64 },
    /// A fingerprint's like on a question flipped.
    LikeToggled { question_id: u64, liked: bool, count: u64 },
    /// A moderator command was applied to a question.
    QuestionModerated { question_id: u64, action: ModAction },
}

/// An immutable, per-event-ordered description of one applied mutation.
#[derive(Clone, Copy, PartialEq, Eq, Structural, Debug)]
pub struct ChangeRecord {
    /// The event's sequence number after the mutation.
    pub seq: u64,
    /// What happened.
    pub payload: ChangePayload,
}

} // verus!
