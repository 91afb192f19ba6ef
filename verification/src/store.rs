//! Event store: the authoritative state of every event.
//!
//! One store instance owns all event, question and like state, and is
//! mutated only through the atomic operations here.  Mutations on one
//! event are serialized by the single `&mut` borrow of the store, and
//! each bumps the event's sequence number by exactly one, so change
//! records are strictly ordered per event.  A failed operation leaves
//! the store untouched.

use vstd::prelude::*;

use crate::auth::Role;
use crate::auth::authorize;
use crate::auth::role_of;
use crate::errors::ApiError;
use crate::errors::ValidationError;
use crate::record::ModAction;
use crate::token::MODERATOR_PREFIX;
use crate::token::PUBLIC_PREFIX;
use crate::token::Token;
use crate::token::fresh_token_pair;
use crate::token::lemma_distinct_counter;
use crate::token::lemma_distinct_prefix;
use crate::token::shaped_token;
use crate::validate::MAX_CONTACT_LEN;
use crate::validate::MAX_DESC_LEN;
use crate::validate::MAX_NAME_LEN;
use crate::validate::check_event_fields;
use crate::validate::check_question_text;
use crate::validate::valid_event_fields;
use crate::validate::valid_question_text;

verus! {

/// One audience question inside an event.
pub struct Question {
    /// Unique within the owning event, assigned once.
    pub id: u64,
    /// What was asked.
    pub text: String,
    /// When it was asked, in the caller's clock.
    pub created_at: u64,
    /// The fingerprints that currently like the question; no duplicates.
    pub likes: Vec<u64>,
    /// Taken off the public view by a moderator.
    pub hidden: bool,
    /// Marked answered by a moderator.
    pub answered: bool,
}

impl Question {
    /// The set of fingerprints that like the question.
    pub open spec fn likers(&self) -> Set<u64> {
        self.likes@.to_set()
    }

    /// The stored like list carries each fingerprint at most once, so
    /// its length never drifts from the size of the liker set.
    pub open spec fn wf(&self) -> bool {
        self.likes@.no_duplicates()
    }
}

/// One Q&A event with its two credentials and its questions.
pub struct Event {
    /// Shareable read credential; shape carries `counter`.
    pub public_token: Token,
    /// Secret moderation credential; shape carries `counter`.
    pub moderator_token: Token,
    /// Position of the event in the store, baked into both tokens.
    pub counter: u64,
    /// Display name.
    pub name: String,
    /// Display description.
    pub description: String,
    /// Optional contact address of the creator.
    pub contact: String,
    /// When the event was created, in the caller's clock.
    pub created_at: u64,
    /// Short-lived free tier.
    pub free_tier: bool,
    /// Per-event fingerprint salt: keeps fingerprints unlinkable across events.
    pub fp_salt: u64,
    /// The questions, in arrival order.
    pub questions: Vec<Question>,
    /// The id the next question will get; above every stored id.
    pub next_question_id: u64,
    /// Sequence number of the last applied mutation; zero at creation.
    pub seq: u64,
}

impl Event {
    /// Internal consistency of one event.
    pub open spec fn wf(&self) -> bool {
        &&& shaped_token(self.public_token@, PUBLIC_PREFIX, self.counter)
        &&& shaped_token(self.moderator_token@, MODERATOR_PREFIX, self.counter)
        &&& forall|i: int| 0 <= i < self.questions@.len() ==> (#[trigger] self.questions@[i]).wf()
        &&& forall|i: int|
            0 <= i < self.questions@.len() ==> (#[trigger] self.questions@[i]).id
                < self.next_question_id
        &&& forall|i: int, j: int|
            0 <= i < self.questions@.len() && 0 <= j < self.questions@.len() && i != j
                ==> (#[trigger] self.questions@[i]).id != (#[trigger] self.questions@[j]).id
    }

    /// Whether some stored question has this id.
    pub open spec fn has_question(&self, question_id: u64) -> bool {
        exists|i: int| 0 <= i < self.questions@.len() && (#[trigger] self.questions@[i]).id
            == question_id
    }
}

/// The two credentials of a freshly created event, surfaced exactly once.
pub struct EventCredentials {
    /// Shareable read credential.
    pub public_token: Token,
    /// Secret moderation credential.
    pub moderator_token: Token,
}

/// The authoritative store: every event, owned exclusively.
pub struct EventStore {
    /// All events; the position of an event equals its `counter`.
    pub events: Vec<Event>,
}

impl EventStore {
    /// Internal consistency of the whole store.
    pub open spec fn wf(&self) -> bool {
        forall|i: int|
            0 <= i < self.events@.len() ==> (#[trigger] self.events@[i]).wf()
                && self.events@[i].counter == i as u64
    }

    /// Whether some stored event answers to this public token.
    pub open spec fn has_event(&self, token: Seq<u8>) -> bool {
        exists|i: int| 0 <= i < self.events@.len() && (#[trigger] self.events@[i]).public_token@
            == token
    }

    /// An empty store.
    pub fn new() -> (s: EventStore)
        ensures
            s.wf(),
            s.events@.len() == 0,
    {
        EventStore { events: Vec::new() }
    }
}

/// In a well-formed store, the four tokens of two distinct events are
/// pairwise distinct, and within one event the two tiers differ.
pub proof fn lemma_store_tokens_distinct(s: &EventStore, i: int, j: int)
    requires
        s.wf(),
        0 <= i < s.events@.len(),
        0 <= j < s.events@.len(),
    ensures
        s.events@[i].public_token@ != s.events@[i].moderator_token@,
        i != j ==> s.events@[i].public_token@ != s.events@[j].public_token@,
        i != j ==> s.events@[i].moderator_token@ != s.events@[j].moderator_token@,
        i != j ==> s.events@[i].public_token@ != s.events@[j].moderator_token@,
{
    let ei = s.events@[i];
    let ej = s.events@[j];
    lemma_distinct_prefix(
        ei.public_token@,
        ei.moderator_token@,
        PUBLIC_PREFIX,
        MODERATOR_PREFIX,
        ei.counter,
        ei.counter,
    );
    if i != j {
        vstd::std_specs::vec::axiom_spec_len(&s.events);
        assert(s.events@.len() <= usize::MAX);
        assert(ei.counter == i as u64 && ej.counter == j as u64);
        assert(i as u64 != j as u64);
        lemma_distinct_counter(
            ei.public_token@,
            ej.public_token@,
            PUBLIC_PREFIX,
            PUBLIC_PREFIX,
            ei.counter,
            ej.counter,
        );
        lemma_distinct_counter(
            ei.moderator_token@,
            ej.moderator_token@,
            MODERATOR_PREFIX,
            MODERATOR_PREFIX,
            ei.counter,
            ej.counter,
        );
        lemma_distinct_prefix(
            ei.public_token@,
            ej.moderator_token@,
            PUBLIC_PREFIX,
            MODERATOR_PREFIX,
            ei.counter,
            ej.counter,
        );
    }
}

/// The field, in order, that `create_event` rejects first.
pub open spec fn first_event_fault(
    name: Seq<char>,
    desc: Seq<char>,
    contact: Seq<char>,
) -> Option<ValidationError> {
    if name.len() == 0 {
        Some(ValidationError::Empty)
    } else if name.len() > MAX_NAME_LEN {
        Some(ValidationError::TooLong)
    } else if desc.len() == 0 {
        Some(ValidationError::Empty)
    } else if desc.len() > MAX_DESC_LEN {
        Some(ValidationError::TooLong)
    } else if contact.len() > MAX_CONTACT_LEN {
        Some(ValidationError::TooLong)
    } else {
        None
    }
}

impl EventStore {
    /// Creates an event: validates the fields, mints the credential
    /// pair, and appends the event with no questions at sequence zero.
    /// The moderator token is returned here and never surfaced again.
    pub fn create_event(
        &mut self,
        name: String,
        description: String,
        contact: String,
        now: u64,
    ) -> (r: Result<EventCredentials, ApiError>)
        requires
            old(self).wf(),
        ensures
            final(self).wf(),
            r is Ok <==> valid_event_fields(name@, description@, contact@),
            r matches Err(e) ==> {
                &&& *final(self) == *old(self)
                &&& first_event_fault(name@, description@, contact@) matches Some(v) && e
                    == ApiError::Validation(v)
            },
            r matches Ok(c) ==> {
                &&& final(self).events@.len() == old(self).events@.len() + 1
                &&& final(self).events@.take(old(self).events@.len() as int) == old(self).events@
                &&& {
                    let e = final(self).events@.last();
                    &&& c.public_token@ == e.public_token@
                    &&& c.moderator_token@ == e.moderator_token@
                    &&& c.public_token@ != c.moderator_token@
                    &&& e.name@ == name@
                    &&& e.description@ == description@
                    &&& e.contact@ == contact@
                    &&& e.created_at == now
                    &&& e.questions@.len() == 0
                    &&& e.seq == 0
                    &&& e.counter == old(self).events@.len()
                }
            },
    {
        let faults = check_event_fields(name.as_str(), description.as_str(), contact.as_str());
        if let Some(v) = faults.name {
            return Err(ApiError::Validation(v));
        }
        if let Some(v) = faults.desc {
            return Err(ApiError::Validation(v));
        }
        if let Some(v) = faults.contact {
            return Err(ApiError::Validation(v));
        }
        let counter = self.events.len() as u64;
        let (public_token, moderator_token) = fresh_token_pair(counter);
        let credentials = EventCredentials {
            public_token: public_token.duplicate(),
            moderator_token: moderator_token.duplicate(),
        };
        let event = Event {
            public_token,
            moderator_token,
            counter,
            name,
            description,
            contact,
            created_at: now,
            free_tier: true,
            fp_salt: crate::token::random_u64(),
            questions: Vec::new(),
            next_question_id: 0,
            seq: 0,
        };
        self.events.push(event);
        proof {
            assert(self.events@.take(old(self).events@.len() as int) =~= old(self).events@);
            assert forall|i: int| 0 <= i < self.events@.len() implies (
            #[trigger] self.events@[i]).wf() && self.events@[i].counter == i as u64 by {
                if i < old(self).events@.len() {
                    assert(self.events@[i] == old(self).events@[i]);
                }
            }
        }
        Ok(credentials)
    }

    /// Resolves a public token to the index of its event.
    pub fn find_event(&self, token: &Token) -> (r: Option<usize>)
        ensures
            match r {
                Some(i) => 0 <= i < self.events@.len() && self.events@[i as int].public_token@
                    == token@,
                None => !self.has_event(token@),
            },
    {
        let mut i: usize = 0;
        while i < self.events.len()
            invariant
                i <= self.events@.len(),
                forall|j: int|
                    0 <= j < i ==> (#[trigger] self.events@[j]).public_token@ != token@,
            decreases self.events@.len() - i,
        {
            if self.events[i].public_token.matches(token) {
                return Some(i);
            }
            i = i + 1;
        }
        None
    }
}

} // verus!

// === Views ===========================================================

use vstd::seq_lib::*;

verus! {

/// What a viewer sees of one question; liker fingerprints stay hidden.
pub struct QuestionView {
    /// The question's id within its event.
    pub id: u64,
    /// What was asked.
    pub text: String,
    /// When it was asked.
    pub created_at: u64,
    /// How many fingerprints currently like it.
    pub likes: u64,
    /// Moderation flag: off the public view.
    pub hidden: bool,
    /// Moderation flag: answered.
    pub answered: bool,
}

/// The view reproduces the question faithfully, with the liker set
/// collapsed to its size.
pub open spec fn question_view_matches(v: QuestionView, q: Question) -> bool {
    &&& v.id == q.id
    &&& v.text@ == q.text@
    &&& v.created_at == q.created_at
    &&& v.likes == q.likes@.len()
    &&& v.hidden == q.hidden
    &&& v.answered == q.answered
}

/// Two question views carry the same fields.
pub open spec fn question_views_equal(a: QuestionView, b: QuestionView) -> bool {
    &&& a.id == b.id
    &&& a.text@ == b.text@
    &&& a.created_at == b.created_at
    &&& a.likes == b.likes
    &&& a.hidden == b.hidden
    &&& a.answered == b.answered
}

/// What one `get_event` call hands back.  The moderator token itself is
/// never part of a view: it is surfaced exactly once, at creation.
pub struct EventView {
    /// The event's shareable token.
    pub public_token: Token,
    /// Display name.
    pub name: String,
    /// Display description.
    pub description: String,
    /// When the event was created.
    pub created_at: u64,
    /// Short-lived free tier.
    pub free_tier: bool,
    /// Sequence number of the state this view snapshots.
    pub seq: u64,
    /// Whether the privileged view was granted.
    pub is_moderator: bool,
    /// The questions this viewer may see, in arrival order.
    pub questions: Vec<QuestionView>,
}

/// The predicate that keeps a question on the public view.
pub open spec fn visible_pred() -> spec_fn(Question) -> bool {
    |q: Question| !q.hidden
}

/// The questions an anonymous viewer sees, in order.
pub open spec fn visible_questions(e: Event) -> Seq<Question> {
    e.questions@.filter(visible_pred())
}

/// How a view relates to the event it snapshots.  A moderator sees every
/// question; the public sees the visible ones; both in arrival order.
pub open spec fn event_view_post(e: Event, v: EventView, moderator: bool) -> bool {
    &&& v.public_token@ == e.public_token@
    &&& v.name@ == e.name@
    &&& v.description@ == e.description@
    &&& v.created_at == e.created_at
    &&& v.free_tier == e.free_tier
    &&& v.seq == e.seq
    &&& v.is_moderator == moderator
    &&& {
        let qs = if moderator {
            e.questions@
        } else {
            visible_questions(e)
        };
        &&& v.questions@.len() == qs.len()
        &&& forall|i: int|
            0 <= i < qs.len() ==> question_view_matches(#[trigger] v.questions@[i], qs[i])
    }
}

/// Every element of the filtered sequence stands somewhere in the original.
proof fn lemma_filter_elem(s: Seq<Question>, i: int)
    requires
        0 <= i < s.filter(visible_pred()).len(),
    ensures
        exists|j: int| 0 <= j < s.len() && s[j] == s.filter(visible_pred())[i],
    decreases s.len(),
{
    reveal(Seq::filter);
    let f = s.filter(visible_pred());
    if s.len() != 0 {
        let rest = s.drop_last();
        if visible_pred()(s.last()) && i == rest.filter(visible_pred()).len() {
            assert(s[s.len() - 1] == f[i]);
        } else {
            lemma_filter_elem(rest, i);
            let j = choose|j: int|
                0 <= j < rest.len() && rest[j] == rest.filter(visible_pred())[i];
            assert(s[j] == f[i]);
        }
    }
}

/// Some entry of `v.questions` carries the same fields as `q`.
pub open spec fn view_lists_question(v: EventView, q: QuestionView) -> bool {
    exists|j: int| 0 <= j < v.questions@.len() && question_views_equal(
        q,
        #[trigger] v.questions@[j],
    )
}

/// The privileged view is a superset of the public one: same event
/// fields, and every question the public sees stands, with the same
/// fields, in the moderator's list.
pub proof fn lemma_moderator_view_superset(e: Event, vp: EventView, vm: EventView)
    requires
        event_view_post(e, vp, false),
        event_view_post(e, vm, true),
    ensures
        vp.name@ == vm.name@,
        vp.description@ == vm.description@,
        vp.created_at == vm.created_at,
        vp.seq == vm.seq,
        vp.questions@.len() <= vm.questions@.len(),
        forall|i: int|
            0 <= i < vp.questions@.len() ==> view_lists_question(
                vm,
                #[trigger] vp.questions@[i],
            ),
{
    broadcast use Seq::lemma_filter_len;

    assert forall|i: int| 0 <= i < vp.questions@.len() implies view_lists_question(
        vm,
        #[trigger] vp.questions@[i],
    ) by {
        lemma_filter_elem(e.questions@, i);
        let j = choose|j: int|
            0 <= j < e.questions@.len() && e.questions@[j] == visible_questions(e)[i];
        assert(question_view_matches(vp.questions@[i], visible_questions(e)[i]));
        assert(question_view_matches(vm.questions@[j], e.questions@[j]));
        assert(0 <= j < vm.questions@.len());
        assert(question_views_equal(vp.questions@[i], vm.questions@[j]));
    }
}

impl EventStore {
    /// Resolves a public token and returns the matching view: the
    /// privileged one exactly when the supplied secret is the event's
    /// moderator token, the public one otherwise.  `NotFound` exactly
    /// when no event answers to the token.
    pub fn get_event(&self, token: &Token, secret: Option<&Token>) -> (r: Result<
        EventView,
        ApiError,
    >)
        requires
            self.wf(),
        ensures
            r is Ok <==> self.has_event(token@),
            r is Err ==> r == Err::<EventView, ApiError>(ApiError::NotFound),
            r matches Ok(v) ==> forall|i: int|
                0 <= i < self.events@.len() && (#[trigger] self.events@[i]).public_token@
                    == token@ ==> {
                    let granted = secret matches Some(s) && s@
                        == self.events@[i].moderator_token@;
                    event_view_post(self.events@[i], v, granted)
                },
    {
        let ei = match self.find_event(token) {
            None => {
                return Err(ApiError::NotFound);
            },
            Some(i) => i,
        };
        let e = &self.events[ei];
        let is_moderator = match secret {
            Some(s) => {
                let role = authorize(&e.public_token, &e.moderator_token, s);
                role == Role::Moderator
            },
            None => false,
        };
        let mut qs: Vec<QuestionView> = Vec::new();
        let mut i: usize = 0;
        while i < e.questions.len()
            invariant
                i <= e.questions@.len(),
                ({
                    let sel = if is_moderator {
                        e.questions@.take(i as int)
                    } else {
                        e.questions@.take(i as int).filter(visible_pred())
                    };
                    &&& qs@.len() == sel.len()
                    &&& forall|j: int|
                        0 <= j < sel.len() ==> question_view_matches(
                            #[trigger] qs@[j],
                            sel[j],
                        )
                }),
            decreases e.questions@.len() - i,
        {
            let q = &e.questions[i];
            let ghost prefix = e.questions@.take(i as int);
            if is_moderator || !q.hidden {
                qs.push(
                    QuestionView {
                        id: q.id,
                        text: q.text.clone(),
                        created_at: q.created_at,
                        likes: q.likes.len() as u64,
                        hidden: q.hidden,
                        answered: q.answered,
                    },
                );
            }
            proof {
                assert(e.questions@.take(i as int + 1) =~= prefix.push(e.questions@[i as int]));
                if !is_moderator {
                    prefix.lemma_filter_push(e.questions@[i as int], visible_pred());
                }
            }
            i = i + 1;
        }
        proof {
            assert(e.questions@.take(e.questions@.len() as int) =~= e.questions@);
        }
        let view = EventView {
            public_token: e.public_token.duplicate(),
            name: e.name.clone(),
            description: e.description.clone(),
            created_at: e.created_at,
            free_tier: e.free_tier,
            seq: e.seq,
            is_moderator,
            questions: qs,
        };
        proof {
            assert forall|i2: int|
                0 <= i2 < self.events@.len() && (#[trigger] self.events@[i2]).public_token@
                    == token@ implies i2 == ei as int by {
                if i2 != ei as int {
                    lemma_store_tokens_distinct(self, i2, ei as int);
                }
            }
        }
        Ok(view)
    }
}

} // verus!

// === Mutations =======================================================

verus! {

/// Whether an event can still take a mutation without exhausting a
/// machine counter.
pub open spec fn event_has_room(e: Event) -> bool {
    e.seq < u64::MAX && e.next_question_id < u64::MAX
}

/// The fields a mutation on one question never touches.
pub open spec fn event_core_unchanged(e0: Event, e1: Event) -> bool {
    &&& e1.public_token@ == e0.public_token@
    &&& e1.moderator_token@ == e0.moderator_token@
    &&& e1.counter == e0.counter
    &&& e1.name@ == e0.name@
    &&& e1.description@ == e0.description@
    &&& e1.contact@ == e0.contact@
    &&& e1.created_at == e0.created_at
    &&& e1.free_tier == e0.free_tier
    &&& e1.fp_salt == e0.fp_salt
}

/// One like toggle on the liker set: flip `fp`'s membership.
pub open spec fn toggle_spec(s: Set<u64>, fp: u64) -> Set<u64> {
    if s.contains(fp) {
        s.remove(fp)
    } else {
        s.insert(fp)
    }
}

/// `n` toggles by the same fingerprint, one after the other.
pub open spec fn toggled_times(s: Set<u64>, fp: u64, n: nat) -> Set<u64>
    decreases n,
{
    if n == 0 {
        s
    } else {
        toggle_spec(toggled_times(s, fp, (n - 1) as nat), fp)
    }
}

/// Law: starting from a state where `fp` does not like the question,
/// after any run of toggles by `fp` the final liked state is exactly
/// "the number of toggles is odd", and no other membership changes.
pub proof fn lemma_toggle_parity(s: Set<u64>, fp: u64, n: nat)
    requires
        !s.contains(fp),
    ensures
        toggled_times(s, fp, n).contains(fp) <==> n % 2 == 1,
        forall|x: u64| x != fp ==> toggled_times(s, fp, n).contains(x) == s.contains(x),
    decreases n,
{
    if n > 0 {
        lemma_toggle_parity(s, fp, (n - 1) as nat);
    }
}

/// Law: two different fingerprints liking the same question lose no
/// update: both orders of the two toggles land in the same state, both
/// likes are present, and the count grows by exactly two.
pub proof fn lemma_concurrent_likes(s: Set<u64>, f1: u64, f2: u64)
    requires
        s.finite(),
        f1 != f2,
        !s.contains(f1),
        !s.contains(f2),
    ensures
        toggle_spec(toggle_spec(s, f1), f2) == toggle_spec(toggle_spec(s, f2), f1),
        toggle_spec(toggle_spec(s, f1), f2).contains(f1),
        toggle_spec(toggle_spec(s, f1), f2).contains(f2),
        toggle_spec(toggle_spec(s, f1), f2).len() == s.len() + 2,
{
    broadcast use vstd::set::group_set_axioms;

    assert(toggle_spec(toggle_spec(s, f1), f2) =~= toggle_spec(toggle_spec(s, f2), f1));
    assert(s.insert(f1).len() == s.len() + 1);
    assert(s.insert(f1).insert(f2).len() == s.insert(f1).len() + 1);
}

/// Appending a fresh fingerprint keeps the list duplicate-free and
/// inserts it into the liker set.
proof fn lemma_push_like(s: Seq<u64>, x: u64)
    requires
        s.no_duplicates(),
        !s.contains(x),
    ensures
        s.push(x).no_duplicates(),
        s.push(x).to_set() == s.to_set().insert(x),
        s.push(x).to_set().len() == s.push(x).len(),
{
    broadcast use vstd::set::group_set_axioms;

    assert forall|i: int, j: int|
        0 <= i < s.push(x).len() && 0 <= j < s.push(x).len() && i != j implies s.push(x)[i]
        != s.push(x)[j] by {
        if i < s.len() && j < s.len() {
            assert(s[i] != s[j]);
        }
    }
    assert forall|y: u64| #[trigger] s.push(x).contains(y) implies s.contains(y) || y == x by {
        let i = choose|i: int| 0 <= i < s.push(x).len() && s.push(x)[i] == y;
        if i < s.len() {
            assert(s[i] == y);
        }
    }
    assert forall|y: u64| s.contains(y) || y == x implies #[trigger] s.push(x).contains(y) by {
        if s.contains(y) {
            let i = choose|i: int| 0 <= i < s.len() && s[i] == y;
            assert(s.push(x)[i] == y);
        } else {
            assert(s.push(x)[s.len() as int] == y);
        }
    }
    assert(s.push(x).to_set() =~= s.to_set().insert(x));
    s.push(x).unique_seq_to_set();
}

/// Removing position `k` from a duplicate-free list removes exactly the
/// fingerprint stored there from the liker set.
proof fn lemma_remove_like(s: Seq<u64>, k: int)
    requires
        s.no_duplicates(),
        0 <= k < s.len(),
    ensures
        s.remove(k).no_duplicates(),
        s.remove(k).to_set() == s.to_set().remove(s[k]),
        s.remove(k).to_set().len() == s.remove(k).len(),
{
    broadcast use vstd::set::group_set_axioms;

    let t = s.remove(k);
    assert forall|i: int, j: int| 0 <= i < t.len() && 0 <= j < t.len() && i != j implies t[i]
        != t[j] by {
        let si = if i < k { i } else { i + 1 };
        let sj = if j < k { j } else { j + 1 };
        assert(t[i] == s[si] && t[j] == s[sj]);
        assert(s[si] != s[sj]);
    }
    assert forall|x: u64| t.contains(x) implies s.to_set().remove(s[k]).contains(x) by {
        let i = choose|i: int| 0 <= i < t.len() && t[i] == x;
        let si = if i < k { i } else { i + 1 };
        assert(s[si] == x);
        assert(si != k);
        assert(s[si] != s[k]);
    }
    assert forall|x: u64| s.to_set().remove(s[k]).contains(x) implies t.contains(x) by {
        let i = choose|i: int| 0 <= i < s.len() && s[i] == x;
        assert(i != k);
        let ti = if i < k { i } else { i - 1 };
        assert(t[ti] == x);
    }
    assert(t.to_set() =~= s.to_set().remove(s[k]));
    t.unique_seq_to_set();
}

/// What `add_question` hands back: the new question and the sequence
/// number of the change.
pub struct NewQuestion {
    /// The question as viewers will see it; zero likes.
    pub question: QuestionView,
    /// The event's sequence number after the append.
    pub seq: u64,
}

/// What `edit_like` hands back.
#[derive(Clone, Copy, PartialEq, Eq, Structural, Debug)]
pub struct LikeOutcome {
    /// Whether the fingerprint likes the question after the toggle.
    pub liked: bool,
    /// The size of the liker set after the toggle.
    pub count: u64,
    /// The event's sequence number after the toggle.
    pub seq: u64,
}

/// What `moderate_question` hands back.
#[derive(Clone, Copy, PartialEq, Eq, Structural, Debug)]
pub struct ModerationOutcome {
    /// False only for a delete that found nothing to delete.
    pub changed: bool,
    /// The event's sequence number afterwards.
    pub seq: u64,
}

/// When `add_question` succeeds: valid text, known event, room left.
pub open spec fn add_question_ok(s0: EventStore, token: Seq<u8>, text: Seq<char>) -> bool {
    &&& valid_question_text(text)
    &&& s0.has_event(token)
    &&& forall|i: int|
        0 <= i < s0.events@.len() && (#[trigger] s0.events@[i]).public_token@ == token
            ==> event_has_room(s0.events@[i])
}

/// How `add_question` rewrites the store, and what it hands back.
pub open spec fn add_question_post(
    s0: EventStore,
    s1: EventStore,
    token: Seq<u8>,
    text: Seq<char>,
    now: u64,
    n: NewQuestion,
) -> bool {
    forall|i: int|
        0 <= i < s0.events@.len() && (#[trigger] s0.events@[i]).public_token@ == token ==> {
            let e0 = s0.events@[i];
            let e1 = s1.events@[i];
            let q1 = e1.questions@.last();
            &&& s1.events@ == s0.events@.update(i, e1)
            &&& e1.questions@ == e0.questions@.push(q1)
            &&& q1.id == e0.next_question_id
            &&& q1.text@ == text
            &&& q1.created_at == now
            &&& q1.likes@.len() == 0
            &&& !q1.hidden
            &&& !q1.answered
            &&& e1.next_question_id == e0.next_question_id + 1
            &&& e1.seq == e0.seq + 1
            &&& event_core_unchanged(e0, e1)
            &&& n.seq == e1.seq
            &&& n.question.id == q1.id
            &&& n.question.text@ == text
            &&& n.question.likes == 0
            &&& !n.question.hidden
            &&& !n.question.answered
        }
}

impl EventStore {
    /// Resolves a question id inside the event at `ei`.
    fn find_question(&self, ei: usize, question_id: u64) -> (r: Option<usize>)
        requires
            ei < self.events@.len(),
        ensures
            match r {
                Some(k) => 0 <= k < self.events@[ei as int].questions@.len()
                    && self.events@[ei as int].questions@[k as int].id == question_id,
                None => !self.events@[ei as int].has_question(question_id),
            },
    {
        let qs = &self.events[ei].questions;
        let mut k: usize = 0;
        while k < qs.len()
            invariant
                k <= qs@.len(),
                qs@ == self.events@[ei as int].questions@,
                forall|j: int| 0 <= j < k ==> (#[trigger] qs@[j]).id != question_id,
            decreases qs@.len() - k,
        {
            if qs[k].id == question_id {
                return Some(k);
            }
            k = k + 1;
        }
        None
    }

    /// Appends a question: validates the text, assigns the next id with
    /// zero likes, bumps the sequence number.  `ValidationError` on bad
    /// text (nothing touched), `NotFound` on an unknown token.
    pub fn add_question(&mut self, token: &Token, text: String, now: u64) -> (r: Result<
        NewQuestion,
        ApiError,
    >)
        requires
            old(self).wf(),
        ensures
            final(self).wf(),
            r is Ok <==> add_question_ok(*old(self), token@, text@),
            r is Err ==> *final(self) == *old(self),
            text@.len() == 0 ==> r == Err::<NewQuestion, ApiError>(
                ApiError::Validation(ValidationError::Empty),
            ),
            text@.len() > crate::validate::MAX_QUESTION_LEN ==> r == Err::<NewQuestion, ApiError>(
                ApiError::Validation(ValidationError::TooLong),
            ),
            valid_question_text(text@) && !old(self).has_event(token@) ==> r == Err::<
                NewQuestion,
                ApiError,
            >(ApiError::NotFound),
            r matches Ok(n) ==> add_question_post(*old(self), *final(self), token@, text@, now, n),
    {
        if let Err(v) = check_question_text(text.as_str()) {
            return Err(ApiError::Validation(v));
        }
        let ei = match self.find_event(token) {
            None => {
                return Err(ApiError::NotFound);
            },
            Some(i) => i,
        };
        if self.events[ei].seq == u64::MAX || self.events[ei].next_question_id == u64::MAX {
            return Err(ApiError::Capacity);
        }
        let view_text = text.clone();
        let e = &mut self.events[ei];
        let qid = e.next_question_id;
        e.next_question_id = qid + 1;
        e.seq = e.seq + 1;
        let seq = e.seq;
        let q = Question {
            id: qid,
            text,
            created_at: now,
            likes: Vec::new(),
            hidden: false,
            answered: false,
        };
        e.questions.push(q);
        proof {
            let e1 = final(self).events@[ei as int];
            assert(e1.questions@.last().likes@.no_duplicates());
            assert forall|i2: int|
                0 <= i2 < old(self).events@.len() && (#[trigger] old(
                    self,
                ).events@[i2]).public_token@ == token@ implies i2 == ei as int by {
                if i2 != ei as int {
                    lemma_store_tokens_distinct(old(self), i2, ei as int);
                }
            }
        }
        Ok(
            NewQuestion {
                question: QuestionView {
                    id: qid,
                    text: view_text,
                    created_at: now,
                    likes: 0,
                    hidden: false,
                    answered: false,
                },
                seq,
            },
        )
    }
}

} // verus!

// === Like toggling and moderation ====================================

verus! {

/// When `edit_like` succeeds: known event, known question, room left.
pub open spec fn edit_like_ok(s0: EventStore, token: Seq<u8>, question_id: u64) -> bool {
    exists|i: int|
        0 <= i < s0.events@.len() && (#[trigger] s0.events@[i]).public_token@ == token
            && s0.events@[i].has_question(question_id) && s0.events@[i].seq < u64::MAX
}

/// How `edit_like` rewrites the store, and what it hands back: the
/// fingerprint's membership flips, the count is the new liker-set size.
pub open spec fn edit_like_post(
    s0: EventStore,
    s1: EventStore,
    token: Seq<u8>,
    question_id: u64,
    fingerprint: u64,
    o: LikeOutcome,
) -> bool {
    forall|i: int, j: int|
        0 <= i < s0.events@.len() && (#[trigger] s0.events@[i]).public_token@ == token && 0 <= j
            < s0.events@[i].questions@.len() && (#[trigger] s0.events@[i].questions@[j]).id
            == question_id ==> {
            let e0 = s0.events@[i];
            let e1 = s1.events@[i];
            let q0 = e0.questions@[j];
            let q1 = e1.questions@[j];
            &&& s1.events@ == s0.events@.update(i, e1)
            &&& e1.questions@ == e0.questions@.update(j, q1)
            &&& q1.likers() == toggle_spec(q0.likers(), fingerprint)
            &&& q1.id == q0.id
            &&& q1.text@ == q0.text@
            &&& q1.created_at == q0.created_at
            &&& q1.hidden == q0.hidden
            &&& q1.answered == q0.answered
            &&& e1.seq == e0.seq + 1
            &&& e1.next_question_id == e0.next_question_id
            &&& event_core_unchanged(e0, e1)
            &&& o.liked == !q0.likers().contains(fingerprint)
            &&& o.liked == q1.likers().contains(fingerprint)
            &&& o.count == q1.likers().len()
            &&& o.count == q1.likes@.len()
            &&& o.seq == e1.seq
        }
}

/// Where a fingerprint stands in a like list, if anywhere.
fn find_like(likes: &Vec<u64>, fingerprint: u64) -> (r: Option<usize>)
    ensures
        match r {
            Some(a) => 0 <= a < likes@.len() && likes@[a as int] == fingerprint,
            None => !likes@.contains(fingerprint),
        },
{
    let mut k: usize = 0;
    while k < likes.len()
        invariant
            k <= likes@.len(),
            forall|m: int| 0 <= m < k ==> likes@[m] != fingerprint,
        decreases likes@.len() - k,
    {
        if likes[k] == fingerprint {
            return Some(k);
        }
        k = k + 1;
    }
    None
}

impl EventStore {
    /// Toggles `fingerprint`'s like on one question: present likes are
    /// withdrawn, absent ones added.  The returned count is the size of
    /// the liker set after the toggle, never a drifted counter.  The
    /// toggle is deliberately a flip, not a set-to-true: retried
    /// delivery of the same request flips again, which is the caller's
    /// deduplication problem.
    pub fn edit_like(&mut self, token: &Token, question_id: u64, fingerprint: u64) -> (r: Result<
        LikeOutcome,
        ApiError,
    >)
        requires
            old(self).wf(),
        ensures
            final(self).wf(),
            r is Err ==> *final(self) == *old(self),
            !old(self).has_event(token@) ==> r == Err::<LikeOutcome, ApiError>(ApiError::NotFound),
            r is Ok <==> edit_like_ok(*old(self), token@, question_id),
            r matches Ok(o) ==> edit_like_post(
                *old(self),
                *final(self),
                token@,
                question_id,
                fingerprint,
                o,
            ),
    {
        let ei = match self.find_event(token) {
            None => {
                return Err(ApiError::NotFound);
            },
            Some(i) => i,
        };
        proof {
            assert forall|i2: int|
                0 <= i2 < old(self).events@.len() && (#[trigger] old(
                    self,
                ).events@[i2]).public_token@ == token@ implies i2 == ei as int by {
                if i2 != ei as int {
                    lemma_store_tokens_distinct(old(self), i2, ei as int);
                }
            }
        }
        let qi = match self.find_question(ei, question_id) {
            None => {
                return Err(ApiError::NotFound);
            },
            Some(k) => k,
        };
        if self.events[ei].seq == u64::MAX {
            return Err(ApiError::Capacity);
        }
        let e = &mut self.events[ei];
        e.seq = e.seq + 1;
        let seq = e.seq;
        let q = &mut e.questions[qi];
        let ghost likes0 = q.likes@;
        let pos = find_like(&q.likes, fingerprint);
        let liked: bool;
        match pos {
            Some(at) => {
                q.likes.remove(at);
                liked = false;
                proof {
                    lemma_remove_like(likes0, at as int);
                    assert(likes0.to_set().contains(fingerprint));
                }
            },
            None => {
                q.likes.push(fingerprint);
                liked = true;
                proof {
                    assert(!likes0.contains(fingerprint));
                    assert(!likes0.to_set().contains(fingerprint));
                    lemma_push_like(likes0, fingerprint);
                }
            },
        }
        let count = q.likes.len() as u64;
        Ok(LikeOutcome { liked, count, seq })
    }
}

} // verus!

// === Moderation ======================================================

verus! {

/// How a moderation action rewrites one question's flags.
pub open spec fn moderated_question(q0: Question, action: ModAction) -> Question {
    match action {
        ModAction::Hide => Question { hidden: true, ..q0 },
        ModAction::Show => Question { hidden: false, ..q0 },
        ModAction::Answer => Question { answered: true, ..q0 },
        ModAction::Delete => q0,
    }
}

/// When `moderate_question` succeeds: the moderator secret of the named
/// event, and either a present question with room for the change, or a
/// delete of an already absent question (a no-op success).
pub open spec fn moderate_ok(
    s0: EventStore,
    token: Seq<u8>,
    secret: Seq<u8>,
    question_id: u64,
    action: ModAction,
) -> bool {
    exists|i: int|
        0 <= i < s0.events@.len() && (#[trigger] s0.events@[i]).public_token@ == token && secret
            == s0.events@[i].moderator_token@ && ((s0.events@[i].has_question(question_id)
            && s0.events@[i].seq < u64::MAX) || (action is Delete && !s0.events@[i].has_question(
            question_id,
        )))
}

/// How `moderate_question` rewrites a present question.
pub open spec fn moderate_post(
    s0: EventStore,
    s1: EventStore,
    token: Seq<u8>,
    question_id: u64,
    action: ModAction,
    o: ModerationOutcome,
) -> bool {
    forall|i: int, j: int|
        0 <= i < s0.events@.len() && (#[trigger] s0.events@[i]).public_token@ == token && 0 <= j
            < s0.events@[i].questions@.len() && (#[trigger] s0.events@[i].questions@[j]).id
            == question_id ==> {
            let e0 = s0.events@[i];
            let e1 = s1.events@[i];
            let q0 = e0.questions@[j];
            &&& s1.events@ == s0.events@.update(i, e1)
            &&& (if action is Delete {
                e1.questions@ == e0.questions@.remove(j)
            } else {
                e1.questions@ == e0.questions@.update(j, moderated_question(q0, action))
            })
            &&& e1.seq == e0.seq + 1
            &&& e1.next_question_id == e0.next_question_id
            &&& event_core_unchanged(e0, e1)
            &&& o.changed == true
            &&& o.seq == e1.seq
        }
}

impl EventStore {
    /// Applies a moderator command to one question.  Requires the
    /// event's moderator token: anything else is `Forbidden`.  Deleting
    /// a question that is already gone is a no-op success, so client
    /// retries stay safe; every other action on an unknown question is
    /// `NotFound`.
    pub fn moderate_question(
        &mut self,
        token: &Token,
        secret: &Token,
        question_id: u64,
        action: ModAction,
    ) -> (r: Result<ModerationOutcome, ApiError>)
        requires
            old(self).wf(),
        ensures
            final(self).wf(),
            r is Err ==> *final(self) == *old(self),
            !old(self).has_event(token@) ==> r == Err::<ModerationOutcome, ApiError>(
                ApiError::NotFound,
            ),
            r is Ok <==> moderate_ok(*old(self), token@, secret@, question_id, action),
            forall|i: int|
                0 <= i < old(self).events@.len() && (#[trigger] old(
                    self,
                ).events@[i]).public_token@ == token@ && secret@ != old(
                    self,
                ).events@[i].moderator_token@ ==> r == Err::<ModerationOutcome, ApiError>(
                    ApiError::Forbidden,
                ),
            r matches Ok(o) ==> forall|i: int|
                0 <= i < old(self).events@.len() && (#[trigger] old(
                    self,
                ).events@[i]).public_token@ == token@ && !old(self).events@[i].has_question(
                    question_id,
                ) ==> o.changed == false && o.seq == old(self).events@[i].seq && *final(self)
                    == *old(self),
            r matches Ok(o) ==> moderate_post(
                *old(self),
                *final(self),
                token@,
                question_id,
                action,
                o,
            ),
    {
        let ei = match self.find_event(token) {
            None => {
                return Err(ApiError::NotFound);
            },
            Some(i) => i,
        };
        proof {
            assert forall|i2: int|
                0 <= i2 < old(self).events@.len() && (#[trigger] old(
                    self,
                ).events@[i2]).public_token@ == token@ implies i2 == ei as int by {
                if i2 != ei as int {
                    lemma_store_tokens_distinct(old(self), i2, ei as int);
                }
            }
        }
        let granted = {
            let e_ref = &self.events[ei];
            let role = authorize(&e_ref.public_token, &e_ref.moderator_token, secret);
            matches!(role, Role::Moderator)
        };
        if !granted {
            return Err(ApiError::Forbidden);
        }
        let qi = match self.find_question(ei, question_id) {
            None => {
                if let ModAction::Delete = action {
                    let seq = self.events[ei].seq;
                    return Ok(ModerationOutcome { changed: false, seq });
                }
                return Err(ApiError::NotFound);
            },
            Some(k) => k,
        };
        if self.events[ei].seq == u64::MAX {
            return Err(ApiError::Capacity);
        }
        let ghost qs0 = self.events@[ei as int].questions@;
        let e = &mut self.events[ei];
        e.seq = e.seq + 1;
        let seq = e.seq;
        match action {
            ModAction::Hide => {
                let q = &mut e.questions[qi];
                q.hidden = true;
            },
            ModAction::Show => {
                let q = &mut e.questions[qi];
                q.hidden = false;
            },
            ModAction::Answer => {
                let q = &mut e.questions[qi];
                q.answered = true;
            },
            ModAction::Delete => {
                e.questions.remove(qi);
            },
        }
        proof {
            let e1 = final(self).events@[ei as int];
            if action is Delete {
                let k = qi as int;
                assert forall|a: int| 0 <= a < e1.questions@.len() implies (
                #[trigger] e1.questions@[a]).wf() && e1.questions@[a].id
                    < e1.next_question_id by {
                    let sa = if a < k {
                        a
                    } else {
                        a + 1
                    };
                    assert(e1.questions@[a] == qs0[sa]);
                }
                assert forall|a: int, b: int|
                    0 <= a < e1.questions@.len() && 0 <= b < e1.questions@.len() && a
                        != b implies (#[trigger] e1.questions@[a]).id != (
                #[trigger] e1.questions@[b]).id by {
                    let sa = if a < k {
                        a
                    } else {
                        a + 1
                    };
                    let sb = if b < k {
                        b
                    } else {
                        b + 1
                    };
                    assert(e1.questions@[a] == qs0[sa] && e1.questions@[b] == qs0[sb]);
                    assert(qs0[sa].id != qs0[sb].id);
                }
            }
        }
        Ok(ModerationOutcome { changed: true, seq })
    }
}

} // verus!

// === Fingerprints and cross-event authorization ======================

use crate::fingerprint::fingerprint;
use crate::fingerprint::fingerprint_spec;

verus! {

impl EventStore {
    /// The fingerprint one event assigns to a client: the engine keyed
    /// with that event's own salt, so fingerprints of different events
    /// are not linkable to each other.
    pub fn fingerprint_for(&self, token: &Token, addr: &Vec<u8>, agent: &Vec<u8>) -> (r: Result<
        u64,
        ApiError,
    >)
        requires
            self.wf(),
        ensures
            r is Ok <==> self.has_event(token@),
            r is Err ==> r == Err::<u64, ApiError>(ApiError::NotFound),
            r matches Ok(fp) ==> forall|i: int|
                0 <= i < self.events@.len() && (#[trigger] self.events@[i]).public_token@
                    == token@ ==> fp == fingerprint_spec(self.events@[i].fp_salt, addr@, agent@),
    {
        let ei = match self.find_event(token) {
            None => {
                return Err(ApiError::NotFound);
            },
            Some(i) => i,
        };
        let fp = fingerprint(self.events[ei].fp_salt, addr, agent);
        proof {
            assert forall|i2: int|
                0 <= i2 < self.events@.len() && (#[trigger] self.events@[i2]).public_token@
                    == token@ implies i2 == ei as int by {
                if i2 != ei as int {
                    lemma_store_tokens_distinct(self, i2, ei as int);
                }
            }
        }
        Ok(fp)
    }
}

/// Law: graded against one event of a well-formed store, the moderator
/// token of any other event is denied, never granted public or
/// moderator access.
pub proof fn lemma_foreign_moderator_denied(s: &EventStore, i: int, j: int)
    requires
        s.wf(),
        0 <= i < s.events@.len(),
        0 <= j < s.events@.len(),
        i != j,
    ensures
        role_of(
            s.events@[i].public_token@,
            s.events@[i].moderator_token@,
            s.events@[j].moderator_token@,
        ) is Denied,
{
    lemma_store_tokens_distinct(s, i, j);
}

} // verus!
