use live_qa::errors::{ApiError, ValidationError};
use live_qa::record::ModAction;
use live_qa::store::EventStore;
use live_qa::token::Token;

fn new_event(store: &mut EventStore) -> (Token, Token) {
    let creds = store
        .create_event(
            String::from("Q&A"),
            String::from("desc"),
            String::new(),
            7,
        )
        .unwrap();
    (creds.public_token, creds.moderator_token)
}

#[test]
fn create_event_tokens_are_distinct() {
    let mut store = EventStore::new();
    let (public, moderator) = new_event(&mut store);
    assert_ne!(public.as_bytes(), moderator.as_bytes());
    assert_eq!(public.as_bytes().len(), 49);
    assert_eq!(moderator.as_bytes().len(), 49);
    assert_eq!(public.as_bytes()[0], b'p');
    assert_eq!(moderator.as_bytes()[0], b'm');
}

#[test]
fn tokens_of_two_events_differ() {
    let mut store = EventStore::new();
    let (p1, m1) = new_event(&mut store);
    let (p2, m2) = new_event(&mut store);
    assert_ne!(p1.as_bytes(), p2.as_bytes());
    assert_ne!(m1.as_bytes(), m2.as_bytes());
    assert_ne!(p1.as_bytes(), m2.as_bytes());
    assert_ne!(p2.as_bytes(), m1.as_bytes());
}

#[test]
fn create_event_rejects_bad_fields() {
    let mut store = EventStore::new();
    let r = store.create_event(String::new(), String::from("d"), String::new(), 0);
    assert!(matches!(r, Err(ApiError::Validation(ValidationError::Empty))));
    let long_name: String = "x".repeat(31);
    let r = store.create_event(long_name, String::from("d"), String::new(), 0);
    assert!(matches!(r, Err(ApiError::Validation(ValidationError::TooLong))));
    let r = store.create_event(String::from("n"), String::new(), String::new(), 0);
    assert!(matches!(r, Err(ApiError::Validation(ValidationError::Empty))));
}

#[test]
fn moderator_view_is_superset_of_public_view() {
    let mut store = EventStore::new();
    let (public, moderator) = new_event(&mut store);
    store.add_question(&public, String::from("first"), 1).unwrap();
    let q2 = store.add_question(&public, String::from("second"), 2).unwrap();
    store
        .moderate_question(&public, &moderator, q2.question.id, ModAction::Hide)
        .unwrap();

    let public_view = store.get_event(&public, None).unwrap();
    let moderator_view = store.get_event(&public, Some(&moderator)).unwrap();

    assert!(!public_view.is_moderator);
    assert!(moderator_view.is_moderator);
    assert_eq!(public_view.name, moderator_view.name);
    assert_eq!(public_view.description, moderator_view.description);
    assert_eq!(public_view.seq, moderator_view.seq);
    // the hidden question is absent from the public view, present for the moderator
    assert_eq!(public_view.questions.len(), 1);
    assert_eq!(moderator_view.questions.len(), 2);
    // every publicly visible question appears in the moderator view
    for q in &public_view.questions {
        assert!(moderator_view.questions.iter().any(|m| m.id == q.id && m.text == q.text));
    }
}

#[test]
fn get_event_with_wrong_secret_gives_public_view() {
    let mut store = EventStore::new();
    let (p1, _m1) = new_event(&mut store);
    let (_p2, m2) = new_event(&mut store);
    let v = store.get_event(&p1, Some(&m2)).unwrap();
    assert!(!v.is_moderator);
}

#[test]
fn get_event_unknown_token_is_not_found() {
    let mut store = EventStore::new();
    let (_p, m) = new_event(&mut store);
    assert!(matches!(store.get_event(&m, None), Err(ApiError::NotFound)));
    let bogus = Token::from_bytes(vec![1, 2, 3]);
    assert!(matches!(store.get_event(&bogus, None), Err(ApiError::NotFound)));
}

#[test]
fn add_question_empty_text_is_validation_error() {
    let mut store = EventStore::new();
    let (public, _) = new_event(&mut store);
    let r = store.add_question(&public, String::new(), 0);
    assert!(matches!(r, Err(ApiError::Validation(ValidationError::Empty))));
    // nothing was appended
    assert_eq!(store.get_event(&public, None).unwrap().questions.len(), 0);
}

#[test]
fn add_question_long_text_is_validation_error() {
    let mut store = EventStore::new();
    let (public, _) = new_event(&mut store);
    let r = store.add_question(&public, "y".repeat(501), 0);
    assert!(matches!(r, Err(ApiError::Validation(ValidationError::TooLong))));
    let r = store.add_question(&public, "y".repeat(500), 0);
    assert!(r.is_ok());
}

#[test]
fn add_question_valid_text_starts_with_zero_likes() {
    let mut store = EventStore::new();
    let (public, _) = new_event(&mut store);
    let n = store.add_question(&public, String::from("valid text"), 5).unwrap();
    assert_eq!(n.question.likes, 0);
    assert_eq!(n.question.text, "valid text");
    assert!(!n.question.hidden);
    assert!(!n.question.answered);
    assert_eq!(n.seq, 1);
}

#[test]
fn edit_like_toggle_parity_and_count() {
    let mut store = EventStore::new();
    let (public, _) = new_event(&mut store);
    let q = store.add_question(&public, String::from("toggle me"), 0).unwrap();
    let fp = 42u64;
    // an odd run of toggles ends liked, an even one not; count tracks the set
    let o1 = store.edit_like(&public, q.question.id, fp).unwrap();
    assert!(o1.liked);
    assert_eq!(o1.count, 1);
    let o2 = store.edit_like(&public, q.question.id, fp).unwrap();
    assert!(!o2.liked);
    assert_eq!(o2.count, 0);
    let o3 = store.edit_like(&public, q.question.id, fp).unwrap();
    assert!(o3.liked);
    assert_eq!(o3.count, 1);
}

#[test]
fn edit_like_two_fingerprints_never_lose_an_update() {
    let mut store = EventStore::new();
    let (public, _) = new_event(&mut store);
    let q = store.add_question(&public, String::from("popular"), 0).unwrap();
    store.edit_like(&public, q.question.id, 1).unwrap();
    let o = store.edit_like(&public, q.question.id, 2).unwrap();
    assert_eq!(o.count, 2);

    // the other interleaving lands in the same count
    let q2 = store.add_question(&public, String::from("popular too"), 0).unwrap();
    store.edit_like(&public, q2.question.id, 2).unwrap();
    let o = store.edit_like(&public, q2.question.id, 1).unwrap();
    assert_eq!(o.count, 2);
}

#[test]
fn edit_like_unknown_question_is_not_found() {
    let mut store = EventStore::new();
    let (public, _) = new_event(&mut store);
    assert!(matches!(store.edit_like(&public, 9, 1), Err(ApiError::NotFound)));
}

#[test]
fn moderation_requires_the_right_secret() {
    let mut store = EventStore::new();
    let (p1, _m1) = new_event(&mut store);
    let (_p2, m2) = new_event(&mut store);
    let q = store.add_question(&p1, String::from("hide me"), 0).unwrap();
    // a moderator token of a different event is denied, never public
    let r = store.moderate_question(&p1, &m2, q.question.id, ModAction::Hide);
    assert!(matches!(r, Err(ApiError::Forbidden)));
    // the public token does not moderate either
    let p1_copy = p1.duplicate();
    let r = store.moderate_question(&p1, &p1_copy, q.question.id, ModAction::Hide);
    assert!(matches!(r, Err(ApiError::Forbidden)));
}

#[test]
fn moderation_hide_show_answer_delete() {
    let mut store = EventStore::new();
    let (public, moderator) = new_event(&mut store);
    let q = store.add_question(&public, String::from("lifecycle"), 0).unwrap();
    let id = q.question.id;

    let o = store.moderate_question(&public, &moderator, id, ModAction::Hide).unwrap();
    assert!(o.changed);
    assert_eq!(store.get_event(&public, None).unwrap().questions.len(), 0);

    store.moderate_question(&public, &moderator, id, ModAction::Show).unwrap();
    assert_eq!(store.get_event(&public, None).unwrap().questions.len(), 1);

    store.moderate_question(&public, &moderator, id, ModAction::Answer).unwrap();
    let v = store.get_event(&public, None).unwrap();
    assert!(v.questions[0].answered);

    let o = store.moderate_question(&public, &moderator, id, ModAction::Delete).unwrap();
    assert!(o.changed);
    assert_eq!(store.get_event(&public, None).unwrap().questions.len(), 0);

    // deleting again is a no-op success, not an error
    let o = store.moderate_question(&public, &moderator, id, ModAction::Delete).unwrap();
    assert!(!o.changed);

    // but hiding a gone question is NotFound
    let r = store.moderate_question(&public, &moderator, id, ModAction::Hide);
    assert!(matches!(r, Err(ApiError::NotFound)));
}

#[test]
fn sequence_numbers_increase_by_one_per_mutation() {
    let mut store = EventStore::new();
    let (public, _) = new_event(&mut store);
    let n1 = store.add_question(&public, String::from("a"), 0).unwrap();
    let n2 = store.add_question(&public, String::from("b"), 0).unwrap();
    let o = store.edit_like(&public, n1.question.id, 3).unwrap();
    assert_eq!(n1.seq, 1);
    assert_eq!(n2.seq, 2);
    assert_eq!(o.seq, 3);
}

#[test]
fn fingerprints_are_event_scoped() {
    let mut store = EventStore::new();
    let (p1, _) = new_event(&mut store);
    let (p2, _) = new_event(&mut store);
    let addr = b"198.51.100.7".to_vec();
    let agent = b"browser/1.0".to_vec();
    // stable within one event
    let f1 = store.fingerprint_for(&p1, &addr, &agent).unwrap();
    let f1_again = store.fingerprint_for(&p1, &addr, &agent).unwrap();
    assert_eq!(f1, f1_again);
    // usable for deduplication through edit_like
    let q = store.add_question(&p1, String::from("dedup"), 0).unwrap();
    let o = store.edit_like(&p1, q.question.id, f1).unwrap();
    assert!(o.liked && o.count == 1);
    let o = store.edit_like(&p1, q.question.id, f1_again).unwrap();
    assert!(!o.liked && o.count == 0);
    // an unknown token identifies no event
    let f2 = store.fingerprint_for(&p2, &addr, &agent);
    assert!(f2.is_ok());
    let bogus = Token::from_bytes(vec![9]);
    assert!(matches!(store.fingerprint_for(&bogus, &addr, &agent), Err(ApiError::NotFound)));
}
