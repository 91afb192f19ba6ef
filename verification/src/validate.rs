//! Input validation: shape checks that run before any state change.
//!
//! Lengths are measured in characters, matching what an input form
//! enforces, not in encoded bytes.

use vstd::prelude::*;
use vstd::string::StrSliceExecFns;

use crate::errors::ValidationError;

verus! {

/// Longest accepted event name, in characters.
pub const MAX_NAME_LEN: usize = 30;

/// Longest accepted event description, in characters.
pub const MAX_DESC_LEN: usize = 1000;

/// Longest accepted contact address, in characters.
pub const MAX_CONTACT_LEN: usize = 100;

/// Longest accepted question text, in characters.
pub const MAX_QUESTION_LEN: usize = 500;

/// A required field: present and within `max` characters.
pub open spec fn valid_required(s: Seq<char>, max: int) -> bool {
    1 <= s.len() <= max
}

/// An optional field: empty or within `max` characters.
pub open spec fn valid_optional(s: Seq<char>, max: int) -> bool {
    s.len() <= max
}

/// A question text the pipeline accepts.
pub open spec fn valid_question_text(s: Seq<char>) -> bool {
    valid_required(s, MAX_QUESTION_LEN as int)
}

/// Checks a required field against `max`; says exactly which constraint broke.
pub fn check_required(s: &str, max: usize) -> (r: Result<(), ValidationError>)
    ensures
        r is Ok <==> valid_required(s@, max as int),
        r == Err::<(), ValidationError>(ValidationError::Empty) <==> s@.len() == 0,
        r == Err::<(), ValidationError>(ValidationError::TooLong) <==> s@.len() > max,
{
    let n = s.unicode_len();
    if n == 0 {
        Err(ValidationError::Empty)
    } else if n > max {
        Err(ValidationError::TooLong)
    } else {
        Ok(())
    }
}

/// Checks an optional field against `max`.
pub fn check_optional(s: &str, max: usize) -> (r: Result<(), ValidationError>)
    ensures
        r is Ok <==> valid_optional(s@, max as int),
        r == Err::<(), ValidationError>(ValidationError::TooLong) <==> s@.len() > max,
{
    let n = s.unicode_len();
    if n > max {
        Err(ValidationError::TooLong)
    } else {
        Ok(())
    }
}

/// Checks a question text; `Ok` exactly on texts the pipeline accepts.
pub fn check_question_text(s: &str) -> (r: Result<(), ValidationError>)
    ensures
        r is Ok <==> valid_question_text(s@),
        r == Err::<(), ValidationError>(ValidationError::Empty) <==> s@.len() == 0,
        r == Err::<(), ValidationError>(ValidationError::TooLong) <==> s@.len() > MAX_QUESTION_LEN,
{
    check_required(s, MAX_QUESTION_LEN)
}

/// Per-field findings on a create-event form.
#[derive(Clone, Copy, PartialEq, Eq, Structural, Debug)]
pub struct EventFieldErrors {
    pub name: Option<ValidationError>,
    pub desc: Option<ValidationError>,
    pub contact: Option<ValidationError>,
}

/// What `check_event_fields` reports for given field views.
pub open spec fn event_field_errors_spec(
    name: Seq<char>,
    desc: Seq<char>,
    contact: Seq<char>,
) -> EventFieldErrors {
    EventFieldErrors {
        name: if name.len() == 0 {
            Some(ValidationError::Empty)
        } else if name.len() > MAX_NAME_LEN {
            Some(ValidationError::TooLong)
        } else {
            None
        },
        desc: if desc.len() == 0 {
            Some(ValidationError::Empty)
        } else if desc.len() > MAX_DESC_LEN {
            Some(ValidationError::TooLong)
        } else {
            None
        },
        contact: if contact.len() > MAX_CONTACT_LEN {
            Some(ValidationError::TooLong)
        } else {
            None
        },
    }
}

/// All three fields pass.
pub open spec fn valid_event_fields(name: Seq<char>, desc: Seq<char>, contact: Seq<char>) -> bool {
    &&& valid_required(name, MAX_NAME_LEN as int)
    &&& valid_required(desc, MAX_DESC_LEN as int)
    &&& valid_optional(contact, MAX_CONTACT_LEN as int)
}

impl EventFieldErrors {
    /// True when any field was rejected.
    pub fn has_any(&self) -> (r: bool)
        ensures
            r == (self.name is Some || self.desc is Some || self.contact is Some),
    {
        self.name.is_some() || self.desc.is_some() || self.contact.is_some()
    }
}

/// Checks the three create-event fields and reports each finding.
pub fn check_event_fields(name: &str, desc: &str, contact: &str) -> (r: EventFieldErrors)
    ensures
        r == event_field_errors_spec(name@, desc@, contact@),
        !(r.name is Some || r.desc is Some || r.contact is Some) <==> valid_event_fields(
            name@,
            desc@,
            contact@,
        ),
{
    let name_err = match check_required(name, MAX_NAME_LEN) {
        Ok(()) => None,
        Err(e) => Some(e),
    };
    let desc_err = match check_required(desc, MAX_DESC_LEN) {
        Ok(()) => None,
        Err(e) => Some(e),
    };
    let contact_err = match check_optional(contact, MAX_CONTACT_LEN) {
        Ok(()) => None,
        Err(e) => Some(e),
    };
    EventFieldErrors { name: name_err, desc: desc_err, contact: contact_err }
}

} // verus!
