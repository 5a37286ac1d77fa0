use rusty_live_server::error::ApiError;
use rusty_live_server::streaming_info::{StreamingInfoInner, StreamingInfoReasponse};

#[test]
fn error_messages_and_codes() {
    let e = ApiError::Forbidden("no entry".to_string());
    assert_eq!(e.status_code(), 403);
    assert_eq!(e.message(), "Forbidden: no entry");
    let e = ApiError::NotFound("gone".to_string());
    assert_eq!(e.status_code(), 404);
    assert_eq!(e.message(), "Not Found: gone");
    let e = ApiError::BadRequest("what".to_string());
    assert_eq!(e.status_code(), 400);
    assert_eq!(e.message(), "Bad Request: what");
    let e = ApiError::Internal("oops".to_string());
    assert_eq!(e.status_code(), 500);
    assert_eq!(e.message(), "Internal Error: oops");
}

#[test]
fn audience_counter() {
    let mut info = StreamingInfoInner::new();
    assert_eq!(info.get_audiences_num(), 0);
    info.set_audiences_num(7);
    assert_eq!(info.get_audiences_num(), 7);
    info.set_audiences_num(-1);
    assert_eq!(info.get_audiences_num(), -1);
    assert_eq!(StreamingInfoInner::audiences_from_clients(0), 0);
    assert_eq!(StreamingInfoInner::audiences_from_clients(1), 0);
    assert_eq!(StreamingInfoInner::audiences_from_clients(5), 4);
}

#[test]
fn audience_reply_builder() {
    let r = StreamingInfoReasponse::new();
    assert_eq!(r.audiences_num, 0);
    let r = r.with_stream_name(12);
    assert_eq!(r.audiences_num, 12);
}
