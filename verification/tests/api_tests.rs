use rusty_live_server::api::{api_request, get_client_ip, ApiParams, ApiReply, ApiResponse};
use rusty_live_server::banner::{Banner, BannerAnnounce, BannerDatabase};
use rusty_live_server::chat::ChatDatabaseInner;
use rusty_live_server::srs::SrsDatabaseInner;
use rusty_live_server::status::ClientStatus;

fn corpus() -> BannerDatabase {
    let mk = |index: u32| Banner {
        index,
        game: Some("Alpha".to_string()),
        character: Some("Beta".to_string()),
        announces: vec![BannerAnnounce {
            revision: Some(1),
            start_time: "2024-03-05 17:30:00".to_string(),
            banner_life: Some("7天".to_string()),
            announce_life: None,
            content: "你好 世界".to_string(),
            publisher: "uploader".to_string(),
        }],
    };
    BannerDatabase::new(vec![mk(0), mk(1)])
}

fn params(sid: &str) -> ApiParams {
    ApiParams {
        session_id: sid.to_string(),
        action: None,
        answer: None,
        status: None,
        end: None,
    }
}

fn connect(sid: &str) -> ApiParams {
    ApiParams { action: Some("connect".to_string()), ..params(sid) }
}

fn answer(sid: &str, a: &str) -> ApiParams {
    ApiParams { answer: Some(a.to_string()), ..params(sid) }
}

fn payload(r: ApiReply) -> ApiResponse {
    match r {
        ApiReply::Payload(resp) => resp,
        _ => panic!("expected a payload reply"),
    }
}

#[test]
fn client_ip_extraction() {
    assert_eq!(get_client_ip(Some("1.2.3.4, 10.0.0.1"), "127.0.0.1:99"), "1.2.3.4");
    assert_eq!(get_client_ip(Some("  5.6.7.8  "), "127.0.0.1:99"), "5.6.7.8");
    assert_eq!(get_client_ip(None, "9.9.9.9:1234"), "9.9.9.9");
    assert_eq!(get_client_ip(None, "nocolon"), "nocolon");
}

#[test]
fn first_contact_issues_a_challenge() {
    let mut store = SrsDatabaseInner::new("p".to_string(), 0);
    let mut chat = ChatDatabaseInner::new();
    let banners = corpus();
    let r = api_request(&mut store, &mut chat, &banners, "1.1.1.1", &connect("v1"), 0);
    let resp = payload(r);
    let q = resp.question.expect("a new viewer gets a question");
    assert!(q.starts_with("1期公告娘"));
    assert!(store.has_client("1.1.1.1", "v1"));
    let (stored_q, stored_a) = store.get_client_qa("1.1.1.1", "v1").unwrap();
    assert_eq!(stored_q, q);
    assert!(!stored_a.is_empty());
    // reconnecting while pending shows the same challenge again
    let r2 = api_request(&mut store, &mut chat, &banners, "1.1.1.1", &connect("v1"), 5);
    assert_eq!(payload(r2).question.unwrap(), q);
}

// The exact expected answer authorizes; any other string denies; a
// second submission is refused as out of order.
#[test]
fn answers_resolve_exactly_once() {
    let mut store = SrsDatabaseInner::new("p".to_string(), 0);
    let mut chat = ChatDatabaseInner::new();
    let banners = corpus();
    store.register_streamer("9.9.9.9".to_string(), "S1".to_string(), "live", "main", 0);

    // wrong answer -> denied with the decoy
    api_request(&mut store, &mut chat, &banners, "1.1.1.1", &connect("loser"), 0);
    let r = api_request(&mut store, &mut chat, &banners, "1.1.1.1", &answer("loser", "nope"), 1);
    assert_eq!(payload(r).video_uri.unwrap(), "app=ehviewer&straem=lolicon");
    assert_eq!(store.get_client_status("1.1.1.1", "loser"), Some(ClientStatus::Nil));

    // right answer -> authorized with the real locator
    api_request(&mut store, &mut chat, &banners, "2.2.2.2", &connect("winner"), 0);
    let correct = {
        let (_, a) = store.get_client_qa("2.2.2.2", "winner").unwrap();
        a.to_string()
    };
    let r = api_request(
        &mut store,
        &mut chat,
        &banners,
        "2.2.2.2",
        &answer("winner", &correct),
        1,
    );
    assert_eq!(payload(r).video_uri.unwrap(), "app=live&stream=main");
    assert_eq!(store.get_client_status("2.2.2.2", "winner"), Some(ClientStatus::Legal));

    // answering again is out of order now
    let r = api_request(
        &mut store,
        &mut chat,
        &banners,
        "2.2.2.2",
        &answer("winner", &correct),
        2,
    );
    assert!(matches!(r, ApiReply::NotPending));
    assert_eq!(store.get_client_status("2.2.2.2", "winner"), Some(ClientStatus::Legal));
}

// A denied session never sees a new challenge on reconnect: only the
// decoy locator.
#[test]
fn denied_sessions_get_the_decoy_forever() {
    let mut store = SrsDatabaseInner::new("p".to_string(), 0);
    let mut chat = ChatDatabaseInner::new();
    let banners = corpus();
    api_request(&mut store, &mut chat, &banners, "1.1.1.1", &connect("v1"), 0);
    api_request(&mut store, &mut chat, &banners, "1.1.1.1", &answer("v1", "wrong"), 1);
    for t in 2..5 {
        let r = api_request(&mut store, &mut chat, &banners, "1.1.1.1", &connect("v1"), t);
        let resp = payload(r);
        assert!(resp.question.is_none());
        assert_eq!(resp.video_uri.unwrap(), "app=genshin&straem=impact");
    }
}

#[test]
fn unknown_session_answers_are_declined() {
    let mut store = SrsDatabaseInner::new("p".to_string(), 0);
    let mut chat = ChatDatabaseInner::new();
    let banners = corpus();
    let r = api_request(&mut store, &mut chat, &banners, "1.1.1.1", &answer("ghost", "x"), 0);
    assert!(matches!(r, ApiReply::Forbidden));
}

#[test]
fn publisher_secret_binds_the_session() {
    let mut store = SrsDatabaseInner::new("p".to_string(), 0);
    let mut chat = ChatDatabaseInner::new();
    let banners = corpus();
    store.register_streamer("9.9.9.9".to_string(), "secret_S1".to_string(), "live", "main", 0);
    api_request(&mut store, &mut chat, &banners, "1.1.1.1", &connect("pub"), 0);
    let r = api_request(
        &mut store,
        &mut chat,
        &banners,
        "1.1.1.1",
        &answer("pub", "secret_S1"),
        1,
    );
    let resp = payload(r);
    assert_eq!(resp.is_publisher, Some(true));
    assert_eq!(resp.video_uri.unwrap(), "app=live&stream=main");
    assert!(store.client_is_publisher("1.1.1.1", "pub"));

    // a wrong secret denies and shows the decoy
    api_request(&mut store, &mut chat, &banners, "2.2.2.2", &connect("fake"), 0);
    let r = api_request(
        &mut store,
        &mut chat,
        &banners,
        "2.2.2.2",
        &answer("fake", "secret_WRONG"),
        1,
    );
    let resp = payload(r);
    assert_eq!(resp.is_publisher, None);
    assert_eq!(resp.video_uri.unwrap(), "app=ehviewer&straem=lolicon");
    assert_eq!(store.get_client_status("2.2.2.2", "fake"), Some(ClientStatus::Nil));
}

// Ending the broadcast succeeds only for the bound session token and
// resets the store and the chat log.
#[test]
fn ending_requires_the_bound_token() {
    let mut store = SrsDatabaseInner::new("p".to_string(), 0);
    let mut chat = ChatDatabaseInner::new();
    let banners = corpus();
    store.register_streamer("9.9.9.9".to_string(), "secret_S1".to_string(), "live", "main", 0);
    api_request(&mut store, &mut chat, &banners, "1.1.1.1", &connect("pub"), 0);
    api_request(&mut store, &mut chat, &banners, "1.1.1.1", &answer("pub", "secret_S1"), 1);
    chat.add_entry("1.1.1.1".to_string(), "pub".to_string(), "hi".to_string(), true, 1000);

    let intruder = ApiParams { end: Some("true".to_string()), ..params("intruder") };
    let r = api_request(&mut store, &mut chat, &banners, "6.6.6.6", &intruder, 2);
    assert!(matches!(r, ApiReply::Forbidden));
    assert!(store.is_streaming());
    assert_eq!(chat.size(), 1);

    let owner = ApiParams { end: Some("true".to_string()), ..params("pub") };
    let r = api_request(&mut store, &mut chat, &banners, "1.1.1.1", &owner, 3);
    assert!(matches!(r, ApiReply::EndOk));
    assert!(!store.is_streaming());
    assert!(!store.has_client("1.1.1.1", "pub"));
    assert_eq!(chat.size(), 0);
}

#[test]
fn status_reports_follow_the_store() {
    let mut store = SrsDatabaseInner::new("p".to_string(), 0);
    let mut chat = ChatDatabaseInner::new();
    let banners = corpus();
    let ask = ApiParams { status: Some("check".to_string()), ..params("v1") };

    let r = api_request(&mut store, &mut chat, &banners, "1.1.1.1", &ask, 0);
    assert_eq!(payload(r).stream_status.unwrap(), "unregistered");

    api_request(&mut store, &mut chat, &banners, "1.1.1.1", &connect("v1"), 0);
    let r = api_request(&mut store, &mut chat, &banners, "1.1.1.1", &ask, 1);
    assert_eq!(payload(r).stream_status.unwrap(), "pending");

    let correct = {
        let (_, a) = store.get_client_qa("1.1.1.1", "v1").unwrap();
        a.to_string()
    };
    api_request(&mut store, &mut chat, &banners, "1.1.1.1", &answer("v1", &correct), 2);
    let r = api_request(&mut store, &mut chat, &banners, "1.1.1.1", &ask, 3);
    assert_eq!(payload(r).stream_status.unwrap(), "ended");

    // a fresh broadcast invalidates the session: the viewer starts over
    store.register_streamer("9.9.9.9".to_string(), "S1".to_string(), "live", "main", 4);
    assert!(!store.has_client("1.1.1.1", "v1"));
    let r = api_request(&mut store, &mut chat, &banners, "1.1.1.1", &ask, 5);
    assert_eq!(payload(r).stream_status.unwrap(), "unregistered");

    api_request(&mut store, &mut chat, &banners, "1.1.1.1", &connect("v1"), 5);
    let correct = {
        let (_, a) = store.get_client_qa("1.1.1.1", "v1").unwrap();
        a.to_string()
    };
    api_request(&mut store, &mut chat, &banners, "1.1.1.1", &answer("v1", &correct), 5);
    let r = api_request(&mut store, &mut chat, &banners, "1.1.1.1", &ask, 5);
    assert_eq!(payload(r).stream_status.unwrap(), "live");

    store.pause_streaming(6);
    let r = api_request(&mut store, &mut chat, &banners, "1.1.1.1", &ask, 7);
    assert_eq!(payload(r).stream_status.unwrap(), "paused");

    api_request(&mut store, &mut chat, &banners, "1.1.1.1", &answer("v1", "late"), 8);
    let r = api_request(&mut store, &mut chat, &banners, "1.1.1.1", &ask, 9);
    assert_eq!(payload(r).stream_status.unwrap(), "paused");
}

#[test]
fn empty_requests_are_declined() {
    let mut store = SrsDatabaseInner::new("p".to_string(), 0);
    let mut chat = ChatDatabaseInner::new();
    let banners = corpus();
    let r = api_request(&mut store, &mut chat, &banners, "1.1.1.1", &params("v1"), 0);
    assert!(matches!(r, ApiReply::Forbidden));
}

// With public mode on, the rendered challenge embeds the expected
// answer in parentheses.
#[test]
fn public_mode_embeds_the_answer() {
    let mut store = SrsDatabaseInner::new("p".to_string(), 0);
    let mut chat = ChatDatabaseInner::new();
    let banners = corpus();
    store.register_streamer("9.9.9.9".to_string(), "S1".to_string(), "live", "main", 0);
    store.set_public(true);
    let r = api_request(&mut store, &mut chat, &banners, "1.1.1.1", &connect("v1"), 0);
    let q = payload(r).question.unwrap();
    let (_, a) = store.get_client_qa("1.1.1.1", "v1").unwrap();
    let embedded = format!("(answer=\"{}\")", a);
    assert!(q.ends_with(&embedded));
    // and the embedded answer authorizes
    let a = a.to_string();
    let r = api_request(&mut store, &mut chat, &banners, "1.1.1.1", &answer("v1", &a), 1);
    assert_eq!(payload(r).video_uri.unwrap(), "app=live&stream=main");
}

// A session created at t=0 is swept away at t=61 and a later contact
// starts over with a fresh pending session.
#[test]
fn swept_viewer_starts_over() {
    let mut store = SrsDatabaseInner::new("p".to_string(), 0);
    let mut chat = ChatDatabaseInner::new();
    let banners = corpus();
    store.register_streamer("9.9.9.9".to_string(), "S1".to_string(), "live", "main", 0);
    api_request(&mut store, &mut chat, &banners, "1.1.1.1", &connect("v1"), 0);
    assert!(store.has_client("1.1.1.1", "v1"));
    store.tick(61);
    assert!(!store.has_client("1.1.1.1", "v1"));
    let r = api_request(&mut store, &mut chat, &banners, "1.1.1.1", &connect("v1"), 61);
    assert!(payload(r).question.is_some());
    let c = store.get_client("1.1.1.1", "v1").unwrap();
    assert_eq!(c.created_at, 61);
    assert_eq!(c.status, ClientStatus::Pending);
}
