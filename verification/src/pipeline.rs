//! Mutation pipeline: from an authorized command to a broadcast record.
//!
//! One call validates a command, applies it to the store, wraps the
//! outcome in a change record tagged with the event's new sequence
//! number, and fans the record out to every live subscriber of that
//! event.  On any failure the store and the hub stay untouched.  New
//! subscriptions go through `subscribe_with_snapshot`, which takes the
//! snapshot and enrols the subscriber against the same store state, so
//! no record can fall between snapshot and enrolment.

use vstd::prelude::*;

use crate::errors::ApiError;
use crate::hub::Hub;
use crate::hub::hub_broadcast;
use crate::record::ChangePayload;
use crate::record::ChangeRecord;
use crate::record::ModAction;
use crate::store::EventStore;
use crate::store::lemma_store_tokens_distinct;
use crate::store::EventView;
use crate::store::LikeOutcome;
use crate::store::ModerationOutcome;
use crate::store::NewQuestion;
use crate::store::add_question_ok;
use crate::store::add_question_post;
use crate::store::edit_like_ok;
use crate::store::edit_like_post;
use crate::store::event_view_post;
use crate::store::moderate_ok;
use crate::store::moderate_post;
use crate::token::Token;
use crate::validate::MAX_QUESTION_LEN;
use crate::validate::valid_question_text;
use crate::errors::ValidationError;

verus! {

/// The event key under which the hub files subscribers of the event at
/// index `i`: its creation counter.
pub open spec fn event_key_of(s: EventStore, i: int) -> u64 {
    s.events@[i].counter
}

/// Validates and applies an add-question command, then broadcasts the
/// change to the event's subscribers.
pub fn post_question(
    store: &mut EventStore,
    hub: &mut Hub,
    token: &Token,
    text: String,
    now: u64,
) -> (r: Result<(NewQuestion, ChangeRecord), ApiError>)
    requires
        old(store).wf(),
        old(hub).wf(),
    ensures
        final(store).wf(),
        final(hub).wf(),
        r is Err ==> *final(store) == *old(store) && *final(hub) == *old(hub),
        r is Ok <==> add_question_ok(*old(store), token@, text@),
        text@.len() == 0 ==> r == Err::<(NewQuestion, ChangeRecord), ApiError>(
            ApiError::Validation(ValidationError::Empty),
        ),
        text@.len() > MAX_QUESTION_LEN ==> r == Err::<(NewQuestion, ChangeRecord), ApiError>(
            ApiError::Validation(ValidationError::TooLong),
        ),
        valid_question_text(text@) && !old(store).has_event(token@) ==> r == Err::<
            (NewQuestion, ChangeRecord),
            ApiError,
        >(ApiError::NotFound),
        r matches Ok((n, rec)) ==> {
            &&& add_question_post(*old(store), *final(store), token@, text@, now, n)
            &&& rec == (ChangeRecord {
                seq: n.seq,
                payload: ChangePayload::QuestionAdded { question_id: n.question.id },
            })
            &&& forall|i: int|
                0 <= i < old(store).events@.len() && (#[trigger] old(
                    store,
                ).events@[i]).public_token@ == token@ ==> hub_broadcast(
                    *old(hub),
                    *final(hub),
                    event_key_of(*old(store), i),
                    rec,
                )
        },
{
    let ei = match store.find_event(token) {
        None => {
            if let Err(v) = crate::validate::check_question_text(text.as_str()) {
                return Err(ApiError::Validation(v));
            }
            return Err(ApiError::NotFound);
        },
        Some(i) => i,
    };
    proof {
        assert forall|i2: int|
            0 <= i2 < store.events@.len() && (#[trigger] store.events@[i2]).public_token@
                == token@ implies i2 == ei as int by {
            if i2 != ei as int {
                lemma_store_tokens_distinct(store, i2, ei as int);
            }
        }
    }
    let key = store.events[ei].counter;
    let n = match store.add_question(token, text, now) {
        Err(e) => {
            return Err(e);
        },
        Ok(n) => n,
    };
    let rec = ChangeRecord {
        seq: n.seq,
        payload: ChangePayload::QuestionAdded { question_id: n.question.id },
    };
    hub.publish(key, rec);
    Ok((n, rec))
}

/// Applies a like toggle and broadcasts the change.
pub fn toggle_like(
    store: &mut EventStore,
    hub: &mut Hub,
    token: &Token,
    question_id: u64,
    fingerprint: u64,
) -> (r: Result<(LikeOutcome, ChangeRecord), ApiError>)
    requires
        old(store).wf(),
        old(hub).wf(),
    ensures
        final(store).wf(),
        final(hub).wf(),
        r is Err ==> *final(store) == *old(store) && *final(hub) == *old(hub),
        r is Ok <==> edit_like_ok(*old(store), token@, question_id),
        !old(store).has_event(token@) ==> r == Err::<(LikeOutcome, ChangeRecord), ApiError>(
            ApiError::NotFound,
        ),
        r matches Ok((o, rec)) ==> {
            &&& edit_like_post(*old(store), *final(store), token@, question_id, fingerprint, o)
            &&& rec == (ChangeRecord {
                seq: o.seq,
                payload: ChangePayload::LikeToggled { question_id, liked: o.liked, count: o.count },
            })
            &&& forall|i: int|
                0 <= i < old(store).events@.len() && (#[trigger] old(
                    store,
                ).events@[i]).public_token@ == token@ ==> hub_broadcast(
                    *old(hub),
                    *final(hub),
                    event_key_of(*old(store), i),
                    rec,
                )
        },
{
    let ei = match store.find_event(token) {
        None => {
            return Err(ApiError::NotFound);
        },
        Some(i) => i,
    };
    proof {
        assert forall|i2: int|
            0 <= i2 < store.events@.len() && (#[trigger] store.events@[i2]).public_token@
                == token@ implies i2 == ei as int by {
            if i2 != ei as int {
                lemma_store_tokens_distinct(store, i2, ei as int);
            }
        }
    }
    let key = store.events[ei].counter;
    let o = match store.edit_like(token, question_id, fingerprint) {
        Err(e) => {
            return Err(e);
        },
        Ok(o) => o,
    };
    let rec = ChangeRecord {
        seq: o.seq,
        payload: ChangePayload::LikeToggled { question_id, liked: o.liked, count: o.count },
    };
    hub.publish(key, rec);
    Ok((o, rec))
}

/// Applies a moderator command and broadcasts it if it changed state.
/// A delete of an already absent question succeeds without a record.
pub fn moderate(
    store: &mut EventStore,
    hub: &mut Hub,
    token: &Token,
    secret: &Token,
    question_id: u64,
    action: ModAction,
) -> (r: Result<(ModerationOutcome, Option<ChangeRecord>), ApiError>)
    requires
        old(store).wf(),
        old(hub).wf(),
    ensures
        final(store).wf(),
        final(hub).wf(),
        r is Err ==> *final(store) == *old(store) && *final(hub) == *old(hub),
        r is Ok <==> moderate_ok(*old(store), token@, secret@, question_id, action),
        !old(store).has_event(token@) ==> r == Err::<
            (ModerationOutcome, Option<ChangeRecord>),
            ApiError,
        >(ApiError::NotFound),
        r matches Ok((o, rec)) ==> {
            &&& moderate_post(*old(store), *final(store), token@, question_id, action, o)
            &&& !o.changed ==> *final(store) == *old(store) && *final(hub) == *old(hub) && rec
                is None
            &&& o.changed ==> rec == Some(
                ChangeRecord {
                    seq: o.seq,
                    payload: ChangePayload::QuestionModerated { question_id, action },
                },
            )
            &&& o.changed ==> forall|i: int|
                0 <= i < old(store).events@.len() && (#[trigger] old(
                    store,
                ).events@[i]).public_token@ == token@ ==> hub_broadcast(
                    *old(hub),
                    *final(hub),
                    event_key_of(*old(store), i),
                    ChangeRecord {
                        seq: o.seq,
                        payload: ChangePayload::QuestionModerated { question_id, action },
                    },
                )
        },
{
    let ei = match store.find_event(token) {
        None => {
            return Err(ApiError::NotFound);
        },
        Some(i) => i,
    };
    proof {
        assert forall|i2: int|
            0 <= i2 < store.events@.len() && (#[trigger] store.events@[i2]).public_token@
                == token@ implies i2 == ei as int by {
            if i2 != ei as int {
                lemma_store_tokens_distinct(store, i2, ei as int);
            }
        }
    }
    let key = store.events[ei].counter;
    let o = match store.moderate_question(token, secret, question_id, action) {
        Err(e) => {
            return Err(e);
        },
        Ok(o) => o,
    };
    if !o.changed {
        return Ok((o, None));
    }
    let rec = ChangeRecord {
        seq: o.seq,
        payload: ChangePayload::QuestionModerated { question_id, action },
    };
    hub.publish(key, rec);
    Ok((o, Some(rec)))
}

/// Takes a snapshot and enrols a subscriber in one step against the
/// same store state: the snapshot's sequence number is the event's
/// current one and the new queue is empty, so no change record can fall
/// between snapshot and enrolment.
pub fn subscribe_with_snapshot(
    store: &EventStore,
    hub: &mut Hub,
    token: &Token,
    secret: Option<&Token>,
) -> (r: Result<(EventView, u64), ApiError>)
    requires
        store.wf(),
        old(hub).wf(),
    ensures
        final(hub).wf(),
        r is Err ==> *final(hub) == *old(hub),
        !store.has_event(token@) ==> r == Err::<(EventView, u64), ApiError>(ApiError::NotFound),
        r is Ok <==> store.has_event(token@) && old(hub).next_id < u64::MAX,
        r matches Ok((v, id)) ==> {
            &&& forall|i: int|
                0 <= i < store.events@.len() && (#[trigger] store.events@[i]).public_token@
                    == token@ ==> {
                    let granted = secret matches Some(s) && s@ == store.events@[i].moderator_token@;
                    &&& event_view_post(store.events@[i], v, granted)
                    &&& final(hub).subs@.last().event_key == event_key_of(*store, i)
                }
            &&& id == old(hub).next_id
            &&& final(hub).subs@.len() == old(hub).subs@.len() + 1
            &&& final(hub).subs@.take(old(hub).subs@.len() as int) == old(hub).subs@
            &&& final(hub).subs@.last().id == id
            &&& final(hub).subs@.last().queue@.len() == 0
            &&& !final(hub).subs@.last().dropped
        },
{
    let ei = match store.find_event(token) {
        None => {
            return Err(ApiError::NotFound);
        },
        Some(i) => i,
    };
    proof {
        assert forall|i2: int|
            0 <= i2 < store.events@.len() && (#[trigger] store.events@[i2]).public_token@
                == token@ implies i2 == ei as int by {
            if i2 != ei as int {
                lemma_store_tokens_distinct(store, i2, ei as int);
            }
        }
    }
    let key = store.events[ei].counter;
    let view = match store.get_event(token, secret) {
        Err(e) => {
            return Err(e);
        },
        Ok(v) => v,
    };
    let id = match hub.subscribe(key) {
        Err(e) => {
            return Err(e);
        },
        Ok(id) => id,
    };
    Ok((view, id))
}

/// The liveness probe: a fixed reply, no event semantics.
pub fn ping() -> (r: &'static str)
    ensures
        r@ == "pong"@,
{
    "pong"
}

} // verus!
