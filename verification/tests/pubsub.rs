use spume::channel::SubscriptionKind;
use spume::json::{Json, JsonNumber};
use spume::pubsub::{unsubscribe_params_text, Delivery, PubsubState};
use spume::rpc::Reply;

fn num(n: u64) -> Json {
    Json::Number(JsonNumber::PosInt(n))
}

#[test]
fn request_then_reply() {
    let mut s: PubsubState<&str, &str> = PubsubState::new();
    assert!(s.is_open());
    let (id, body) = s.begin_request(SubscriptionKind::Slot.subscribe_method(), "[]", "reply-1");
    assert_eq!(id, 1);
    assert_eq!(body, r#"{"id":1,"jsonrpc":"2.0","method":"slotSubscribe","params":[]}"#);
    let d = s.receive_text(r#"{"jsonrpc":"2.0","result":7,"id":1}"#);
    assert_eq!(d, Delivery::Reply("reply-1", Reply::Result(num(7))));
    // The same reply a second time goes nowhere.
    let again = s.receive_text(r#"{"jsonrpc":"2.0","result":7,"id":1}"#);
    assert_eq!(again, Delivery::Ignored);
}

#[test]
fn error_reply_is_handed_over() {
    let mut s: PubsubState<u8, u8> = PubsubState::new();
    let (id, _) = s.begin_request(SubscriptionKind::Logs.subscribe_method(), "[\"all\"]", 9);
    let frame = format!(r#"{{"error":{{"code":-32602,"message":"bad"}},"id":{id}}}"#);
    match s.receive_text(&frame) {
        Delivery::Reply(9, Reply::ErrorObject(Json::Object(m))) => assert_eq!(m.len(), 2),
        other => panic!("unexpected {other:?}"),
    }
}

#[test]
fn reply_without_result_is_null() {
    let mut s: PubsubState<u8, u8> = PubsubState::new();
    s.begin_request(SubscriptionKind::Root.subscribe_method(), "[]", 1);
    assert_eq!(s.receive_text(r#"{"id":1}"#), Delivery::Reply(1, Reply::Result(Json::Null)));
}

#[test]
fn unknown_or_bad_frames_are_ignored() {
    let mut s: PubsubState<u8, u8> = PubsubState::new();
    s.begin_request(SubscriptionKind::Root.subscribe_method(), "[]", 1);
    assert_eq!(s.receive_text("garbage"), Delivery::Ignored);
    assert_eq!(s.receive_text(r#"{"id":2,"result":1}"#), Delivery::Ignored);
    assert_eq!(s.receive_text(r#"{"params":{"subscription":5,"result":1}}"#), Delivery::Ignored);
    assert_eq!(s.receive_text(r#"[1,2]"#), Delivery::Ignored);
    // The pending request is still there.
    assert_eq!(s.receive_text(r#"{"id":1,"result":true}"#), Delivery::Reply(1, Reply::Result(Json::Bool(true))));
}

#[test]
fn notifications_reach_live_subscriptions() {
    let mut s: PubsubState<u8, &str> = PubsubState::new();
    assert_eq!(s.add_subscription(42, "sink"), None);
    let d = s.receive_text(
        r#"{"jsonrpc":"2.0","method":"slotNotification","params":{"result":{"slot":5},"subscription":42}}"#,
    );
    match d {
        Delivery::Notify(42, Json::Object(m)) => assert_eq!(m[0].0, "slot"),
        other => panic!("unexpected {other:?}"),
    }
    assert_eq!(s.subscription(42), Some(&"sink"));
    assert_eq!(s.receive_text(r#"{"params":{"subscription":42}}"#), Delivery::Notify(42, Json::Null));
}

#[test]
fn ended_subscription_is_silent() {
    let mut s: PubsubState<u8, &str> = PubsubState::new();
    s.add_subscription(42, "sink");
    let body = s.cancel_subscription(42, SubscriptionKind::Slot.unsubscribe_method());
    assert_eq!(body, r#"{"id":1,"jsonrpc":"2.0","method":"slotUnsubscribe","params":[42]}"#);
    assert_eq!(s.subscription(42), None);
    assert_eq!(s.receive_text(r#"{"params":{"result":1,"subscription":42}}"#), Delivery::Ignored);
    // Nobody awaits the answer to a cancel.
    assert_eq!(s.receive_text(r#"{"id":1,"result":true}"#), Delivery::Ignored);
}

#[test]
fn explicit_unsubscribe_awaits_its_ack() {
    let mut s: PubsubState<&str, &str> = PubsubState::new();
    let (sub_req, _) = s.begin_request(SubscriptionKind::Vote.subscribe_method(), "[]", "open");
    assert_eq!(s.receive_text(&format!(r#"{{"id":{sub_req},"result":3}}"#)), Delivery::Reply("open", Reply::Result(num(3))));
    s.add_subscription(3, "sink");
    let (id, body) = s.begin_unsubscribe(3, SubscriptionKind::Vote.unsubscribe_method(), "ack");
    assert_eq!(id, 2);
    assert_eq!(body, r#"{"id":2,"jsonrpc":"2.0","method":"voteUnsubscribe","params":[3]}"#);
    assert_eq!(s.receive_text(r#"{"params":{"subscription":3}}"#), Delivery::Ignored);
    assert_eq!(s.receive_text(r#"{"id":2,"result":true}"#), Delivery::Reply("ack", Reply::Result(Json::Bool(true))));
}

#[test]
fn abandoned_request_gets_no_reply() {
    let mut s: PubsubState<u8, u8> = PubsubState::new();
    let (id, _) = s.begin_request(SubscriptionKind::Account.subscribe_method(), "[]", 4);
    assert_eq!(s.abandon_request(id), Some(4));
    assert_eq!(s.abandon_request(id), None);
    assert_eq!(s.receive_text(r#"{"id":1,"result":1}"#), Delivery::Ignored);
}

#[test]
fn close_hands_back_pending_and_silences() {
    let mut s: PubsubState<u8, u8> = PubsubState::new();
    s.begin_request(SubscriptionKind::Account.subscribe_method(), "[]", 10);
    s.begin_request(SubscriptionKind::Program.subscribe_method(), "[]", 20);
    s.add_subscription(99, 1);
    let failed = s.close();
    assert_eq!(failed.len(), 2);
    assert_eq!(failed.get(&1), Some(&10));
    assert_eq!(failed.get(&2), Some(&20));
    assert_eq!(s.receive_text(r#"{"id":1,"result":1}"#), Delivery::Ignored);
    assert_eq!(s.receive_text(r#"{"params":{"subscription":99}}"#), Delivery::Ignored);
    assert_eq!(s.subscription(99), None);
    // Ids keep counting after the close.
    assert_eq!(s.next_id(), 3);
    assert!(!s.is_open());
}

#[test]
fn subscription_method_names() {
    let all = [
        (SubscriptionKind::Account, "account"),
        (SubscriptionKind::Block, "block"),
        (SubscriptionKind::Logs, "logs"),
        (SubscriptionKind::Program, "program"),
        (SubscriptionKind::Root, "root"),
        (SubscriptionKind::Signature, "signature"),
        (SubscriptionKind::Slot, "slot"),
        (SubscriptionKind::SlotsUpdates, "slotsUpdates"),
        (SubscriptionKind::Vote, "vote"),
    ];
    for (kind, stem) in all {
        assert_eq!(kind.subscribe_method(), format!("{stem}Subscribe"));
        assert_eq!(kind.unsubscribe_method(), format!("{stem}Unsubscribe"));
    }
}

#[test]
fn unsubscribe_params() {
    assert_eq!(unsubscribe_params_text(0), "[0]");
    assert_eq!(unsubscribe_params_text(123456), "[123456]");
}
