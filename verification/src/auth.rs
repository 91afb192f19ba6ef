//! Authorization gate: what a supplied credential is worth on one event.
//!
//! A pure check with no side effect.  The moderator comparison runs
//! first, so a (theoretically) colliding pair still grants the stronger
//! tier deterministically.  Both comparisons run in constant time, and
//! both always run, so the timing of a denial does not say which token
//! was close.

use vstd::prelude::*;

use crate::token::MODERATOR_PREFIX;
use crate::token::PUBLIC_PREFIX;
use crate::token::Token;
use crate::token::lemma_distinct_counter;
use crate::token::lemma_distinct_prefix;
use crate::token::shaped_token;

verus! {

/// The access tier a credential grants.
#[derive(Clone, Copy, PartialEq, Eq, Structural, Debug)]
pub enum Role {
    /// Read and submit: the shareable token.
    Public,
    /// Moderate: the secret token.
    Moderator,
    /// The credential matches neither token.
    Denied,
}

/// The tier `supplied` is worth against an event's two tokens.
pub open spec fn role_of(public: Seq<u8>, moderator: Seq<u8>, supplied: Seq<u8>) -> Role {
    if supplied == moderator {
        Role::Moderator
    } else if supplied == public {
        Role::Public
    } else {
        Role::Denied
    }
}

/// Grades `supplied` against an event's two tokens.
pub fn authorize(public: &Token, moderator: &Token, supplied: &Token) -> (r: Role)
    ensures
        r == role_of(public@, moderator@, supplied@),
{
    let is_moderator = supplied.matches(moderator);
    let is_public = supplied.matches(public);
    if is_moderator {
        Role::Moderator
    } else if is_public {
        Role::Public
    } else {
        Role::Denied
    }
}

/// A moderator token of one event is worth nothing on another event:
/// authorization yields `Denied`, never `Public`.  The events are told
/// apart by their creation counters, which their tokens carry.
pub proof fn lemma_cross_event_denied(
    public: Seq<u8>,
    moderator: Seq<u8>,
    ca: u64,
    foreign_moderator: Seq<u8>,
    cb: u64,
)
    requires
        shaped_token(public, PUBLIC_PREFIX, ca),
        shaped_token(moderator, MODERATOR_PREFIX, ca),
        shaped_token(foreign_moderator, MODERATOR_PREFIX, cb),
        ca != cb,
    ensures
        role_of(public, moderator, foreign_moderator) == Role::Denied,
{
    lemma_distinct_prefix(
        public,
        foreign_moderator,
        PUBLIC_PREFIX,
        MODERATOR_PREFIX,
        ca,
        cb,
    );
    lemma_distinct_counter(
        moderator,
        foreign_moderator,
        MODERATOR_PREFIX,
        MODERATOR_PREFIX,
        ca,
        cb,
    );
}

} // verus!
