use rusty_live_server::chat::ChatDatabaseInner;
use rusty_live_server::chat_api::{chat_request, ChatReply, ChatRequest, ChatResponse};
use rusty_live_server::srs::SrsDatabaseInner;
use rusty_live_server::status::ClientStatus;

fn live_store_with_viewer() -> SrsDatabaseInner {
    let mut db = SrsDatabaseInner::new("p".to_string(), 0);
    db.register_streamer("9.9.9.9".to_string(), "S1".to_string(), "live", "main", 0);
    db.add_client("1.1.1.1".to_string(), "v1".to_string(), 0);
    db.update_client_activity("1.1.1.1", "v1", ClientStatus::Legal, 0);
    db
}

fn payload(r: ChatReply) -> (ChatResponse, bool) {
    match r {
        ChatReply::Payload { response, save_snapshot } => (response, save_snapshot),
        _ => panic!("expected a payload reply"),
    }
}

#[test]
fn log_orders_messages_by_stamp() {
    let mut log = ChatDatabaseInner::new();
    log.add_entry("a".to_string(), "r1".to_string(), "second".to_string(), false, 2000);
    log.add_entry("b".to_string(), "r2".to_string(), "first".to_string(), false, 1000);
    log.add_entry("c".to_string(), "r3".to_string(), "third".to_string(), true, 3000);
    assert_eq!(log.messages.len(), 3);
    assert_eq!(log.messages[0].content, "first");
    assert_eq!(log.messages[1].content, "second");
    assert_eq!(log.messages[2].content, "third");
    assert!(log.messages[2].is_publisher);
    assert_eq!(log.size(), 3);
}

#[test]
fn equal_stamps_keep_arrival_order() {
    let mut log = ChatDatabaseInner::new();
    log.add_entry("a".to_string(), "r1".to_string(), "one".to_string(), false, 1000);
    log.add_entry("a".to_string(), "r1".to_string(), "two".to_string(), false, 1000);
    assert_eq!(log.messages[0].content, "one");
    assert_eq!(log.messages[1].content, "two");
    assert_eq!(log.size(), 1);
}

#[test]
fn chosen_names_are_unique() {
    let mut log = ChatDatabaseInner::new();
    assert!(log.set_client_name("a", "r1", "alice".to_string()));
    assert_eq!(log.get_client_name("a", "r1"), Some("alice".to_string()));
    // the same name cannot be taken twice
    assert!(!log.set_client_name("b", "r2", "alice".to_string()));
    assert_eq!(log.get_client_name("b", "r2"), None);
    // a client cannot rename itself
    assert!(!log.set_client_name("a", "r1", "alicia".to_string()));
    assert_eq!(log.get_client_name("a", "r1"), Some("alice".to_string()));
    // another name is fine
    assert!(log.set_client_name("b", "r2", "bob".to_string()));
}

#[test]
fn polling_windows() {
    let mut log = ChatDatabaseInner::new();
    for i in 0..15i64 {
        log.add_entry("a".to_string(), "r1".to_string(), format!("m{}", i), false, i * 1000);
    }
    // no history: the latest ten
    let latest = log.get_chat_from(-1, false);
    assert_eq!(latest.len(), 10);
    assert_eq!(latest[0].content, "m5");
    assert_eq!(latest[9].content, "m14");
    // everything after the entry following the stamp
    let after = log.get_chat_from(4000, false);
    assert_eq!(after.len(), 9);
    assert_eq!(after[0].content, "m6");
    // the ten before the stamp
    let before = log.get_chat_from(12000, true);
    assert_eq!(before.len(), 10);
    assert_eq!(before[0].content, "m3");
    assert_eq!(before[9].content, "m12");
    // senders resolve to their identity when no name was chosen
    assert_eq!(latest[0].ip, Some("a".to_string()));
    assert_eq!(latest[0].name, None);
}

#[test]
fn polling_resolves_chosen_names() {
    let mut log = ChatDatabaseInner::new();
    log.set_client_name("a", "r1", "alice".to_string());
    log.add_entry("a".to_string(), "r1".to_string(), "hello".to_string(), false, 1000);
    let rows = log.get_chat_from(-1, false);
    assert_eq!(rows.len(), 1);
    assert_eq!(rows[0].name, Some("alice".to_string()));
    assert_eq!(rows[0].ip, None);
}

#[test]
fn chat_gate_checks() {
    // no broadcast: declined outright
    let mut idle = SrsDatabaseInner::new("p".to_string(), 0);
    let mut log = ChatDatabaseInner::new();
    let r = chat_request(&mut idle, &mut log, "1.1.1.1", "v1", &ChatRequest::Hello, 0);
    assert!(matches!(r, ChatReply::Forbidden));

    // broadcast running but the caller never answered: not authorized
    let mut db = live_store_with_viewer();
    let r = chat_request(&mut db, &mut log, "2.2.2.2", "nobody", &ChatRequest::Hello, 0);
    assert!(matches!(r, ChatReply::NotAuthorized));

    // an authorized viewer gets the greeting
    let r = chat_request(&mut db, &mut log, "1.1.1.1", "v1", &ChatRequest::Hello, 0);
    let (resp, snap) = payload(r);
    assert!(!snap);
    assert_eq!(resp.status, Some("Okay".to_string()));
    assert!(resp.chatmsgs.is_some());
}

#[test]
fn chat_send_and_poll() {
    let mut db = live_store_with_viewer();
    let mut log = ChatDatabaseInner::new();
    let send = ChatRequest::SendChat { chat: "hello there".to_string() };
    let r = chat_request(&mut db, &mut log, "1.1.1.1", "v1", &send, 1000);
    assert_eq!(payload(r).0.status, Some("Okay".to_string()));
    assert_eq!(log.messages.len(), 1);

    let poll = ChatRequest::GetChat { prev: Some(2000), next: None };
    let r = chat_request(&mut db, &mut log, "1.1.1.1", "v1", &poll, 2000);
    let rows = payload(r).0.chatmsgs.unwrap();
    assert_eq!(rows.len(), 1);
    assert_eq!(rows[0].content, "hello there");

    // a poll with neither bound is malformed
    let bad = ChatRequest::GetChat { prev: None, next: None };
    let r = chat_request(&mut db, &mut log, "1.1.1.1", "v1", &bad, 2000);
    assert!(matches!(r, ChatReply::Forbidden));
}

#[test]
fn chat_set_name_statuses() {
    let mut db = live_store_with_viewer();
    let mut log = ChatDatabaseInner::new();
    let r = chat_request(
        &mut db,
        &mut log,
        "1.1.1.1",
        "v1",
        &ChatRequest::SetName { name: "alice".to_string() },
        0,
    );
    let (resp, _) = payload(r);
    assert_eq!(resp.status, Some("Okay".to_string()));
    assert_eq!(resp.name, Some("alice".to_string()));

    let r = chat_request(
        &mut db,
        &mut log,
        "1.1.1.1",
        "v1",
        &ChatRequest::SetName { name: "alicia".to_string() },
        0,
    );
    let (resp, _) = payload(r);
    assert_eq!(resp.status, Some("Nope".to_string()));
    assert_eq!(resp.name, Some("alice".to_string()));
}

#[test]
fn room_label_is_publisher_only() {
    let mut db = live_store_with_viewer();
    db.add_client("3.3.3.3".to_string(), "pub".to_string(), 0);
    db.update_client_activity("3.3.3.3", "pub", ClientStatus::Legal, 0);
    db.set_client_publisher("3.3.3.3", "pub");
    let mut log = ChatDatabaseInner::new();

    let rename = ChatRequest::SetLiveName { name: "Movie night".to_string() };
    let r = chat_request(&mut db, &mut log, "1.1.1.1", "v1", &rename, 0);
    let (resp, _) = payload(r);
    assert_eq!(resp.status, Some("Nope".to_string()));
    assert_eq!(db.get_stream_name(), None);

    let r = chat_request(&mut db, &mut log, "3.3.3.3", "pub", &rename, 0);
    let (resp, _) = payload(r);
    assert_eq!(resp.status, Some("Okay".to_string()));
    assert_eq!(resp.name, Some("Movie night".to_string()));
    assert_eq!(db.get_stream_name(), Some("Movie night"));
}

#[test]
fn snapshot_is_publisher_only() {
    let mut db = live_store_with_viewer();
    db.add_client("3.3.3.3".to_string(), "pub".to_string(), 0);
    db.update_client_activity("3.3.3.3", "pub", ClientStatus::Legal, 0);
    db.set_client_publisher("3.3.3.3", "pub");
    let mut log = ChatDatabaseInner::new();

    let r = chat_request(&mut db, &mut log, "1.1.1.1", "v1", &ChatRequest::SaveSnapshot, 0);
    let (resp, snap) = payload(r);
    assert!(!snap);
    assert_eq!(resp.status, Some("Nope".to_string()));

    let r = chat_request(&mut db, &mut log, "3.3.3.3", "pub", &ChatRequest::SaveSnapshot, 0);
    let (resp, snap) = payload(r);
    assert!(snap);
    assert_eq!(resp.status, Some("Okay".to_string()));
}

#[test]
fn audiences_report_total_users() {
    let mut db = live_store_with_viewer();
    let mut log = ChatDatabaseInner::new();
    log.add_entry("a".to_string(), "r1".to_string(), "x".to_string(), false, 0);
    log.add_entry("b".to_string(), "r2".to_string(), "y".to_string(), false, 0);
    let r = chat_request(&mut db, &mut log, "1.1.1.1", "v1", &ChatRequest::GetAudiences, 0);
    let (resp, _) = payload(r);
    let info = resp.audiences.unwrap();
    assert_eq!(info.current, -1);
    assert_eq!(info.total, 2);
}

#[test]
fn uid_range_and_reset() {
    let mut log = ChatDatabaseInner::new();
    assert!(114514 <= log.next_uid && log.next_uid < 1919810);
    log.add_entry("a".to_string(), "r1".to_string(), "x".to_string(), false, 0);
    assert_eq!(log.size(), 1);
    log.reset();
    assert_eq!(log.size(), 0);
    assert_eq!(log.messages.len(), 0);
    assert!(114514 <= log.next_uid && log.next_uid < 1919810);
}
