use rusty_live_server::srs::{content_has_token, SrsDatabaseInner, StreamerVerifier};
use rusty_live_server::status::{ClientStatus, StreamerStatus};

fn store() -> SrsDatabaseInner {
    SrsDatabaseInner::new("secrets/secret.txt".to_string(), 0)
}

#[test]
fn secret_file_token_matching() {
    let v = StreamerVerifier::new("p".to_string());
    let content = "secret_one\nsecret_two  secret_three\n";
    assert!(v.authorize(content, "secret_one"));
    assert!(v.authorize(content, "secret_two"));
    assert!(v.authorize(content, "secret_three"));
    assert!(!v.authorize(content, "secret"));
    assert!(!v.authorize(content, "secret_one\nsecret_two"));
    assert!(!v.authorize(content, "one"));
    assert!(!v.authorize("", "secret_one"));
    assert!(!content_has_token("abc", ""));

    // tokens split on any Unicode white space, as the key file may use
    let exotic = "secret_one\u{a0}secret_two\u{3000}secret_three\u{2028}secret_four";
    assert!(v.authorize(exotic, "secret_one"));
    assert!(v.authorize(exotic, "secret_two"));
    assert!(v.authorize(exotic, "secret_three"));
    assert!(v.authorize(exotic, "secret_four"));
    assert!(!v.authorize(exotic, "secret_one\u{a0}secret_two"));
}

#[test]
fn client_records_round_trip() {
    let mut db = store();
    assert!(!db.has_client("1.2.3.4", "sid"));
    db.add_client("1.2.3.4".to_string(), "sid".to_string(), 10);
    assert!(db.has_client("1.2.3.4", "sid"));
    assert!(!db.has_client("1.2.3.4", "other"));
    assert!(!db.has_client("4.3.2.1", "sid"));
    assert_eq!(db.get_client_status("1.2.3.4", "sid"), Some(ClientStatus::Pending));
    assert!(!db.has_authorized_client("1.2.3.4", "sid"));

    db.set_client_qa("1.2.3.4", "sid", "q?".to_string(), "a!".to_string());
    let (q, a) = db.get_client_qa("1.2.3.4", "sid").unwrap();
    assert_eq!(q, "q?");
    assert_eq!(a, "a!");

    assert!(db.update_client_activity("1.2.3.4", "sid", ClientStatus::Legal, 20));
    assert!(db.has_authorized_client("1.2.3.4", "sid"));
    assert!(!db.update_client_activity("nope", "sid", ClientStatus::Legal, 20));

    db.set_client_publisher("1.2.3.4", "sid");
    assert!(db.client_is_publisher("1.2.3.4", "sid"));
    assert!(!db.client_is_publisher("1.2.3.4", "other"));

    let removed = db.remove_client("1.2.3.4", "sid").unwrap();
    assert_eq!(removed.session_id, "sid");
    assert!(!db.has_client("1.2.3.4", "sid"));
}

#[test]
fn session_found_by_token_under_any_identity() {
    let mut db = store();
    db.add_client("10.0.0.1".to_string(), "tok".to_string(), 0);
    let (ip, st) = db.get_client_status_any_ip("tok").unwrap();
    assert_eq!(ip, "10.0.0.1");
    assert_eq!(st, ClientStatus::Pending);
    assert!(db.get_client_status_any_ip("missing").is_none());
}

#[test]
fn register_and_connect_streamer() {
    let mut db = store();
    assert!(!db.is_streaming());
    // grants and the bypass from before the broadcast do not survive it
    db.add_client("1.1.1.1".to_string(), "stale".to_string(), 0);
    db.set_public(true);
    db.register_streamer("9.9.9.9".to_string(), "s3cr3t".to_string(), "live", "main", 100);
    assert!(!db.has_client("1.1.1.1", "stale"));
    assert!(!db.is_public());
    assert!(db.is_streaming());
    assert!(db.is_actively_streaming());
    assert_eq!(db.get_stream_uri(), Some("app=live&stream=main"));
    assert!(db.connect_streamer("sid-1".to_string(), "s3cr3t"));
    assert!(!db.connect_streamer("sid-2".to_string(), "wrong"));
}

// Resuming succeeds exactly when the presented secret equals the slot's
// stored secret, whatever the key file now says.
#[test]
fn resume_depends_only_on_stored_secret() {
    let mut db = store();
    db.register_streamer("9.9.9.9".to_string(), "S1".to_string(), "live", "a", 0);
    db.pause_streaming(10);
    assert!(!db.is_actively_streaming());
    assert!(!db.resume_streaming("9.9.9.9".to_string(), "S2", "live", "a", 20));
    assert!(!db.is_actively_streaming());
    assert!(db.resume_streaming("8.8.8.8".to_string(), "S1", "live", "b", 30));
    assert!(db.is_actively_streaming());
    assert_eq!(db.get_stream_uri(), Some("app=live&stream=b"));
}

// Ending succeeds exactly for the bound session token; all other callers
// leave the slot unchanged.
#[test]
fn end_streaming_requires_bound_token() {
    let mut db = store();
    db.register_streamer("9.9.9.9".to_string(), "S1".to_string(), "live", "a", 0);
    assert!(db.connect_streamer("owner".to_string(), "S1"));
    assert!(!db.end_streaming(Some("intruder"), 50));
    assert!(db.is_streaming());
    assert!(!db.end_streaming(None, 50));
    assert!(db.is_streaming());
    assert!(db.end_streaming(Some("owner"), 50));
    assert!(!db.is_streaming());
}

// A pending session created at t=0 outlives a sweep at t=60 and dies in
// one at t=61.
#[test]
fn sweep_expires_pending_after_sixty_seconds() {
    let mut db = store();
    db.register_streamer("9.9.9.9".to_string(), "S1".to_string(), "live", "a", 0);
    db.add_client("1.1.1.1".to_string(), "v1".to_string(), 0);
    db.tick(60);
    assert!(db.has_client("1.1.1.1", "v1"));
    db.tick(61);
    assert!(!db.has_client("1.1.1.1", "v1"));
    assert!(db.is_streaming());
}

// Sweeping twice with no intervening activity leaves exactly what one
// sweep leaves.
#[test]
fn sweep_is_idempotent() {
    let mut db = store();
    db.register_streamer("9.9.9.9".to_string(), "S1".to_string(), "live", "a", 0);
    db.add_client("1.1.1.1".to_string(), "young".to_string(), 100);
    db.add_client("2.2.2.2".to_string(), "old".to_string(), 0);
    db.update_client_activity("2.2.2.2", "old", ClientStatus::Legal, 0);
    db.add_client("3.3.3.3".to_string(), "stale".to_string(), 0);
    db.tick(120);
    assert!(!db.has_client("3.3.3.3", "stale"));
    let after_one: Vec<(String, String)> = db
        .clients
        .iter()
        .map(|c| (c.ip.clone(), c.session_id.clone()))
        .collect();
    let streamer_status = db.streamer.status;
    db.tick(120);
    let after_two: Vec<(String, String)> = db
        .clients
        .iter()
        .map(|c| (c.ip.clone(), c.session_id.clone()))
        .collect();
    assert_eq!(after_one, after_two);
    assert_eq!(db.streamer.status, streamer_status);
    // the pending session from t=100 survived, the legal one from t=0 too
    assert!(db.has_client("1.1.1.1", "young"));
    assert!(db.has_client("2.2.2.2", "old"));
}

// An interrupted broadcast may resume within its window; after the
// window a sweep resets the whole store, viewers included.
#[test]
fn interrupted_stream_resumes_or_expires() {
    let mut db = store();
    db.register_streamer("9.9.9.9".to_string(), "S1".to_string(), "live", "a", 0);
    db.add_client("1.1.1.1".to_string(), "v1".to_string(), 0);
    db.update_client_activity("1.1.1.1", "v1", ClientStatus::Playing, 0);
    db.pause_streaming(0);
    assert_eq!(db.streamer.status, StreamerStatus::Pausing);

    // within 600 seconds the same secret resumes
    assert!(db.resume_streaming("9.9.9.9".to_string(), "S1", "live", "a", 599));
    assert_eq!(db.streamer.status, StreamerStatus::Streaming);

    // interrupted again and left alone: the sweep resets everything
    db.pause_streaming(1000);
    db.tick(1601);
    assert_eq!(db.streamer.status, StreamerStatus::Standby);
    assert!(!db.has_client("1.1.1.1", "v1"));
    assert!(!db.is_public());
}

#[test]
fn expired_publisher_sweep_resets_everything() {
    let mut db = store();
    // an idle slot expires after 180 seconds
    db.add_client("1.1.1.1".to_string(), "v1".to_string(), 0);
    db.set_public(true);
    db.tick(181);
    assert!(!db.has_client("1.1.1.1", "v1"));
    assert!(!db.is_public());
    assert_eq!(db.streamer.status, StreamerStatus::Standby);
}

#[test]
fn stream_name_is_settable() {
    let mut db = store();
    assert_eq!(db.get_stream_name(), None);
    db.set_stream_name("Movie night".to_string());
    assert_eq!(db.get_stream_name(), Some("Movie night"));
}

#[test]
fn display_name_and_reset() {
    let mut db = store();
    db.add_client("1.1.1.1".to_string(), "v1".to_string(), 0);
    assert_eq!(db.get_client_display_name("1.1.1.1", "v1"), None);
    db.set_client_display_name("1.1.1.1", "v1", "alice".to_string());
    assert_eq!(db.get_client_display_name("1.1.1.1", "v1"), Some("alice"));
    db.reset(5);
    assert!(!db.has_client("1.1.1.1", "v1"));
    assert_eq!(db.streamer.status, StreamerStatus::Standby);
}
