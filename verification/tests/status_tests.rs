use rusty_live_server::status::{ClientStatus, StreamerStatus};

#[test]
fn client_status_labels_round_trip() {
    let all = [
        ClientStatus::Pending,
        ClientStatus::Legal,
        ClientStatus::Nil,
        ClientStatus::Playing,
        ClientStatus::Resting,
    ];
    for st in all {
        assert_eq!(ClientStatus::from_str(st.as_str()), Some(st));
    }
    assert_eq!(ClientStatus::from_str("unknown"), None);
    assert_eq!(ClientStatus::from_str(""), None);
}

#[test]
fn client_status_ttls() {
    assert_eq!(ClientStatus::Pending.expiration_duration(), Some(60));
    assert_eq!(ClientStatus::Legal.expiration_duration(), Some(3600));
    assert_eq!(ClientStatus::Nil.expiration_duration(), Some(60));
    assert_eq!(ClientStatus::Playing.expiration_duration(), None);
    assert_eq!(ClientStatus::Resting.expiration_duration(), Some(7200));
}

#[test]
fn client_status_authorization() {
    assert!(!ClientStatus::Pending.is_authorized());
    assert!(ClientStatus::Legal.is_authorized());
    assert!(!ClientStatus::Nil.is_authorized());
    assert!(ClientStatus::Playing.is_authorized());
    assert!(ClientStatus::Resting.is_authorized());
}

#[test]
fn streamer_status_labels_and_ttls() {
    assert_eq!(StreamerStatus::Standby.as_str(), "standby");
    assert_eq!(StreamerStatus::Streaming.as_str(), "streaming");
    assert_eq!(StreamerStatus::Pausing.as_str(), "pausing");
    assert_eq!(StreamerStatus::Standby.expiration_duration(), Some(180));
    assert_eq!(StreamerStatus::Streaming.expiration_duration(), None);
    assert_eq!(StreamerStatus::Pausing.expiration_duration(), Some(600));
}
