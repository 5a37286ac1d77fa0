use rusty_live_server::chat::ChatDatabaseInner;
use rusty_live_server::srs::SrsDatabaseInner;
use rusty_live_server::srs_callback::{
    handle_on_play, handle_on_publish, handle_on_stop, handle_on_unpublish, param_get,
    parse_param, SrsCallbackRequest, SrsDecision,
};
use rusty_live_server::status::{ClientStatus, StreamerStatus};

fn request(action: &str, ip: &str, param: &str) -> SrsCallbackRequest {
    SrsCallbackRequest {
        action: action.to_string(),
        ip: ip.to_string(),
        app: "live".to_string(),
        stream: "main".to_string(),
        param: param.to_string(),
        tc_url: String::new(),
    }
}

fn store() -> SrsDatabaseInner {
    SrsDatabaseInner::new("p".to_string(), 0)
}

#[test]
fn query_string_parsing() {
    let pairs = parse_param("?secret=abc&rid=r1");
    assert_eq!(pairs.len(), 2);
    assert_eq!(param_get(&pairs, "secret").map(|s| s.as_str()), Some("abc"));
    assert_eq!(param_get(&pairs, "rid").map(|s| s.as_str()), Some("r1"));
    assert_eq!(param_get(&pairs, "missing"), None);

    // a stray question mark truncates the value; later pairs win
    let pairs = parse_param("a=1?x&b=2&a=3");
    assert_eq!(param_get(&pairs, "a").map(|s| s.as_str()), Some("3"));
    assert_eq!(param_get(&pairs, "b").map(|s| s.as_str()), Some("2"));
    assert_eq!(pairs[0].1, "1");

    // segments without an equals sign contribute nothing
    let pairs = parse_param("justakey&x=1");
    assert_eq!(pairs.len(), 1);
    assert_eq!(param_get(&pairs, "justakey"), None);

    assert_eq!(parse_param("").len(), 0);
}

#[test]
fn publish_requires_a_known_secret() {
    let mut db = store();
    let mut chat = ChatDatabaseInner::new();
    let key_file = "secret_good\nsecret_also\n";

    // no secret parameter at all
    let r = handle_on_publish(&mut db, &mut chat, &request("on_publish", "9.9.9.9", "?x=1"), key_file, 0);
    assert_eq!(r, SrsDecision::Reject);

    // a secret the key file does not hold
    let r = handle_on_publish(
        &mut db,
        &mut chat,
        &request("on_publish", "9.9.9.9", "?secret=secret_bad"),
        key_file,
        0,
    );
    assert_eq!(r, SrsDecision::Reject);
    assert!(!db.is_streaming());

    // a listed secret starts the broadcast, clearing the chat log and
    // every viewer grant from before
    chat.add_entry("1.1.1.1".to_string(), "r".to_string(), "old".to_string(), false, 5);
    db.add_client("1.1.1.1".to_string(), "stale".to_string(), 5);
    let r = handle_on_publish(
        &mut db,
        &mut chat,
        &request("on_publish", "9.9.9.9", "?secret=secret_good"),
        key_file,
        10,
    );
    assert_eq!(r, SrsDecision::Accept);
    assert!(db.is_actively_streaming());
    assert_eq!(db.get_stream_uri(), Some("app=live&stream=main"));
    assert_eq!(chat.size(), 0);
    assert!(!db.has_client("1.1.1.1", "stale"));
    assert!(!db.is_public());
}

#[test]
fn publish_public_flag() {
    let mut db = store();
    let mut chat = ChatDatabaseInner::new();
    let key_file = "secret_good";
    let r = handle_on_publish(
        &mut db,
        &mut chat,
        &request("on_publish", "9.9.9.9", "?secret=secret_good&public=TRUE"),
        key_file,
        0,
    );
    assert_eq!(r, SrsDecision::Accept);
    assert!(db.is_public());
}

// While a broadcast is underway, publishing again resumes it exactly
// when the same secret is presented, even if the key file changed.
#[test]
fn republish_resumes_with_the_same_secret() {
    let mut db = store();
    let mut chat = ChatDatabaseInner::new();
    handle_on_publish(
        &mut db,
        &mut chat,
        &request("on_publish", "9.9.9.9", "?secret=S1"),
        "S1",
        0,
    );
    handle_on_unpublish(&mut db, 10);
    assert_eq!(db.streamer.status, StreamerStatus::Pausing);

    // the old secret resumes even though the key file no longer lists
    // it, and resuming keeps the viewers of the running broadcast
    db.add_client("1.1.1.1".to_string(), "viewer".to_string(), 15);
    let r = handle_on_publish(
        &mut db,
        &mut chat,
        &request("on_publish", "8.8.8.8", "?secret=S1"),
        "rotated_away",
        20,
    );
    assert_eq!(r, SrsDecision::Accept);
    assert_eq!(db.streamer.status, StreamerStatus::Streaming);
    assert!(db.has_client("1.1.1.1", "viewer"));

    // another secret cannot preempt the active broadcast
    handle_on_unpublish(&mut db, 30);
    let r = handle_on_publish(
        &mut db,
        &mut chat,
        &request("on_publish", "7.7.7.7", "?secret=S2"),
        "S2",
        40,
    );
    assert_eq!(r, SrsDecision::Reject);
    assert_eq!(db.streamer.status, StreamerStatus::Pausing);
}

#[test]
fn play_requires_an_authorized_session() {
    let mut db = store();
    db.add_client("1.1.1.1".to_string(), "v1".to_string(), 0);

    // pending sessions may not pull the stream
    let r = handle_on_play(&mut db, &request("on_play", "172.17.0.2", "?session_id=v1"), 1);
    assert_eq!(r, SrsDecision::Reject);

    // unknown tokens are refused
    let r = handle_on_play(&mut db, &request("on_play", "172.17.0.2", "?session_id=ghost"), 1);
    assert_eq!(r, SrsDecision::Reject);

    // authorized sessions start playing, found by token alone
    db.update_client_activity("1.1.1.1", "v1", ClientStatus::Legal, 2);
    let r = handle_on_play(&mut db, &request("on_play", "172.17.0.2", "?session_id=v1"), 3);
    assert_eq!(r, SrsDecision::Accept);
    assert_eq!(db.get_client_status("1.1.1.1", "v1"), Some(ClientStatus::Playing));

    // the legacy parameter name still works
    let r = handle_on_play(&mut db, &request("on_play", "172.17.0.2", "?rid=v1"), 4);
    assert_eq!(r, SrsDecision::Accept);
}

#[test]
fn stop_marks_the_session_dormant() {
    let mut db = store();
    db.add_client("1.1.1.1".to_string(), "v1".to_string(), 0);
    db.update_client_activity("1.1.1.1", "v1", ClientStatus::Playing, 1);

    // stopping an unknown session is accepted and ignored
    let r = handle_on_stop(&mut db, &request("on_stop", "1.1.1.1", "?session_id=ghost"), 2);
    assert_eq!(r, SrsDecision::Accept);
    assert_eq!(db.get_client_status("1.1.1.1", "v1"), Some(ClientStatus::Playing));

    // stopping a known one marks it dormant
    let r = handle_on_stop(&mut db, &request("on_stop", "1.1.1.1", "?session_id=v1"), 3);
    assert_eq!(r, SrsDecision::Accept);
    assert_eq!(db.get_client_status("1.1.1.1", "v1"), Some(ClientStatus::Resting));

    // playback events cannot promote an unauthorized session
    db.add_client("2.2.2.2".to_string(), "p1".to_string(), 4);
    let r = handle_on_stop(&mut db, &request("on_stop", "2.2.2.2", "?session_id=p1"), 5);
    assert_eq!(r, SrsDecision::Accept);
    assert_eq!(db.get_client_status("2.2.2.2", "p1"), Some(ClientStatus::Pending));
    db.update_client_activity("2.2.2.2", "p1", ClientStatus::Nil, 6);
    let r = handle_on_stop(&mut db, &request("on_stop", "2.2.2.2", "?session_id=p1"), 7);
    assert_eq!(r, SrsDecision::Accept);
    assert_eq!(db.get_client_status("2.2.2.2", "p1"), Some(ClientStatus::Nil));
}

#[test]
fn unpublish_only_pauses_a_live_stream() {
    let mut db = store();
    let r = handle_on_unpublish(&mut db, 0);
    assert_eq!(r, SrsDecision::Accept);
    assert_eq!(db.streamer.status, StreamerStatus::Standby);

    db.register_streamer("9.9.9.9".to_string(), "S1".to_string(), "live", "main", 1);
    handle_on_unpublish(&mut db, 2);
    assert_eq!(db.streamer.status, StreamerStatus::Pausing);

    // pausing again changes nothing
    handle_on_unpublish(&mut db, 3);
    assert_eq!(db.streamer.status, StreamerStatus::Pausing);
    assert_eq!(db.streamer.last_activity, 2);
}
