use live_qa::errors::ApiError;
use live_qa::hub::Hub;
use live_qa::pipeline::{moderate, post_question, subscribe_with_snapshot, toggle_like};
use live_qa::record::{ChangePayload, ModAction};
use live_qa::session::{Session, SessionAction, SessionEvent, SessionState};
use live_qa::store::EventStore;

#[test]
fn snapshot_then_incremental_records_in_order() {
    let mut store = EventStore::new();
    let mut hub = Hub::new(16);
    let creds = store
        .create_event(String::from("Q&A"), String::from("desc"), String::new(), 0)
        .unwrap();
    let public = creds.public_token;

    let (snapshot, sub) = subscribe_with_snapshot(&store, &mut hub, &public, None).unwrap();
    assert_eq!(snapshot.seq, 0);
    assert_eq!(hub.drain(sub).unwrap().len(), 0);

    let (n, rec1) = post_question(&mut store, &mut hub, &public, String::from("hi"), 0).unwrap();
    let (_o, rec2) = toggle_like(&mut store, &mut hub, &public, n.question.id, 5).unwrap();

    let queued = hub.drain(sub).unwrap();
    assert_eq!(queued.len(), 2);
    assert_eq!(queued[0], rec1);
    assert_eq!(queued[1], rec2);
    assert_eq!(queued[0].seq, 1);
    assert_eq!(queued[1].seq, 2);
    assert!(matches!(queued[0].payload, ChangePayload::QuestionAdded { .. }));
    assert!(
        matches!(queued[1].payload, ChangePayload::LikeToggled { liked: true, count: 1, .. })
    );
}

#[test]
fn failed_command_publishes_nothing() {
    let mut store = EventStore::new();
    let mut hub = Hub::new(16);
    let creds = store
        .create_event(String::from("Q&A"), String::from("desc"), String::new(), 0)
        .unwrap();
    let public = creds.public_token;
    let (_v, sub) = subscribe_with_snapshot(&store, &mut hub, &public, None).unwrap();

    let r = post_question(&mut store, &mut hub, &public, String::new(), 0);
    assert!(matches!(r, Err(ApiError::Validation(_))));
    let r = toggle_like(&mut store, &mut hub, &public, 99, 1);
    assert!(matches!(r, Err(ApiError::NotFound)));
    assert_eq!(hub.drain(sub).unwrap().len(), 0);
}

#[test]
fn noop_delete_publishes_nothing() {
    let mut store = EventStore::new();
    let mut hub = Hub::new(16);
    let creds = store
        .create_event(String::from("Q&A"), String::from("desc"), String::new(), 0)
        .unwrap();
    let public = creds.public_token;
    let moderator = creds.moderator_token;
    let (_v, sub) = subscribe_with_snapshot(&store, &mut hub, &public, None).unwrap();

    let (o, rec) = moderate(&mut store, &mut hub, &public, &moderator, 4, ModAction::Delete)
        .unwrap();
    assert!(!o.changed);
    assert!(rec.is_none());
    assert_eq!(hub.drain(sub).unwrap().len(), 0);
}

#[test]
fn slow_subscriber_is_dropped_without_delaying_others() {
    let mut store = EventStore::new();
    let mut hub = Hub::new(2);
    let creds = store
        .create_event(String::from("Q&A"), String::from("desc"), String::new(), 0)
        .unwrap();
    let public = creds.public_token;

    let (_s1, slow) = subscribe_with_snapshot(&store, &mut hub, &public, None).unwrap();
    let (_s2, healthy) = subscribe_with_snapshot(&store, &mut hub, &public, None).unwrap();

    // three mutations; the slow subscriber never drains, the healthy one does
    post_question(&mut store, &mut hub, &public, String::from("a"), 0).unwrap();
    post_question(&mut store, &mut hub, &public, String::from("b"), 0).unwrap();
    assert!(!hub.is_dropped(slow));
    let got = hub.drain(healthy).unwrap();
    assert_eq!(got.len(), 2);
    assert_eq!(got[0].seq, 1);
    assert_eq!(got[1].seq, 2);
    post_question(&mut store, &mut hub, &public, String::from("c"), 0).unwrap();

    // disconnected once its backlog bound was hit, and it held at most the bound
    assert!(hub.is_dropped(slow));
    assert_eq!(hub.drain(slow).unwrap().len(), 2);

    // delivery to the healthy subscriber was never delayed by the slow one
    let got = hub.drain(healthy).unwrap();
    assert_eq!(got.len(), 1);
    assert_eq!(got[0].seq, 3);

    assert!(hub.unsubscribe(slow));
    assert!(!hub.unsubscribe(slow));
}

#[test]
fn other_events_subscribers_receive_nothing() {
    let mut store = EventStore::new();
    let mut hub = Hub::new(8);
    let c1 = store
        .create_event(String::from("one"), String::from("desc"), String::new(), 0)
        .unwrap();
    let c2 = store
        .create_event(String::from("two"), String::from("desc"), String::new(), 0)
        .unwrap();
    let (_v1, s1) = subscribe_with_snapshot(&store, &mut hub, &c1.public_token, None).unwrap();
    let (_v2, s2) = subscribe_with_snapshot(&store, &mut hub, &c2.public_token, None).unwrap();

    post_question(&mut store, &mut hub, &c1.public_token, String::from("only one"), 0).unwrap();
    assert_eq!(hub.drain(s1).unwrap().len(), 1);
    assert_eq!(hub.drain(s2).unwrap().len(), 0);
}

#[test]
fn session_applies_only_in_order() {
    let mut s = Session::new();
    assert_eq!(s.step(SessionEvent::Connected), SessionAction::RequestSnapshot);
    assert_eq!(s.state, SessionState::Syncing);
    assert_eq!(s.step(SessionEvent::Snapshot { seq: 5 }), SessionAction::ApplySnapshot);
    assert_eq!(s.state, SessionState::Live);
    assert_eq!(s.last_seq, 5);
    assert_eq!(s.step(SessionEvent::Record { seq: 6 }), SessionAction::ApplyRecord);
    assert_eq!(s.last_seq, 6);
    // a duplicate is ignored, not applied twice
    assert_eq!(s.step(SessionEvent::Record { seq: 6 }), SessionAction::Ignore);
    assert_eq!(s.last_seq, 6);
}

#[test]
fn session_gap_triggers_resync() {
    let mut s = Session::new();
    s.step(SessionEvent::Connected);
    s.step(SessionEvent::Snapshot { seq: 5 });
    // seq 7 after snapshot 5 is a gap: resync, never a silent apply
    assert_eq!(s.step(SessionEvent::Record { seq: 7 }), SessionAction::Resync);
    assert_eq!(s.state, SessionState::Syncing);
    // the fresh snapshot brings it back to live
    assert_eq!(s.step(SessionEvent::Snapshot { seq: 7 }), SessionAction::ApplySnapshot);
    assert_eq!(s.last_seq, 7);
}

#[test]
fn session_reconnect_requests_fresh_snapshot() {
    let mut s = Session::new();
    s.step(SessionEvent::Connected);
    s.step(SessionEvent::Snapshot { seq: 3 });
    assert_eq!(s.step(SessionEvent::ConnectionLost), SessionAction::Ignore);
    assert_eq!(s.state, SessionState::Disconnected);
    // records while disconnected are ignored
    assert_eq!(s.step(SessionEvent::Record { seq: 4 }), SessionAction::Ignore);
    // a reconnect starts over with a snapshot request
    assert_eq!(s.step(SessionEvent::Connected), SessionAction::RequestSnapshot);
    assert_eq!(s.state, SessionState::Syncing);
}
