use chatstream::cursor::{decode_cursor, encode_cursor};
use chatstream::datastore::{InMemoryRepository, Repository};
use chatstream::domain::LiveChatMessage;
use chatstream::live_chat::{attach, auth_required, create_service, deadline_reached, AttachError, AttachRequest};

fn message(id: &str, chat: &str, text: &str) -> LiveChatMessage {
    LiveChatMessage {
        id: id.to_string(),
        live_chat_id: chat.to_string(),
        author_channel_id: "author".to_string(),
        author_display_name: "Someone".to_string(),
        message_text: text.to_string(),
        published_at: "2024-06-01T12:00:00+00:00".to_string(),
        is_verified: true,
    }
}

fn plain_request(chat: Option<&str>, token: Option<&str>) -> AttachRequest {
    AttachRequest {
        live_chat_id: chat.map(|s| s.to_string()),
        page_token: token.map(|s| s.to_string()),
        has_api_key: false,
        has_authorization: false,
    }
}

#[test]
fn attach_rejects_missing_live_chat_id() {
    assert_eq!(
        attach(&plain_request(None, None), false).unwrap_err(),
        AttachError::MissingLiveChatId
    );
}

#[test]
fn attach_rejects_invalid_page_token() {
    assert_eq!(
        attach(&plain_request(Some("c1"), Some("not-base64!")), false).unwrap_err(),
        AttachError::InvalidPageToken
    );
}

#[test]
fn attach_rejects_unauthenticated_when_enforced() {
    assert_eq!(
        attach(&plain_request(Some("c1"), None), true).unwrap_err(),
        AttachError::Unauthenticated
    );
    let mut with_key = plain_request(Some("c1"), None);
    with_key.has_api_key = true;
    assert!(attach(&with_key, true).is_ok());
    let mut with_bearer = plain_request(Some("c1"), None);
    with_bearer.has_authorization = true;
    assert!(attach(&with_bearer, true).is_ok());
}

#[test]
fn attach_treats_empty_token_as_start() {
    let session = attach(&plain_request(Some("c1"), Some("")), false).unwrap();
    assert_eq!(session.position, 0);
    let session = attach(&plain_request(Some("c1"), None), false).unwrap();
    assert_eq!(session.position, 0);
}

#[test]
fn attach_starts_at_decoded_token() {
    let token = encode_cursor(3);
    let session = attach(&plain_request(Some("c1"), Some(&token)), false).unwrap();
    assert_eq!(session.position, 3);
    assert!(!session.sent_any);
}

#[test]
fn empty_channel_emits_one_heartbeat_then_message() {
    // Scenario: channel "c1" empty -> attach with no token -> one
    // heartbeat decoding to 0; then append -> one event with the message
    // and a cursor decoding to 1.
    let service = create_service(InMemoryRepository::new(), None);
    let mut session = service
        .open_session(&plain_request(Some("c1"), None), false)
        .unwrap();

    let events = service.poll(&mut session);
    assert_eq!(events.len(), 1);
    assert!(events[0].message.is_none());
    assert_eq!(decode_cursor(&events[0].resume_token), Some(0));

    // No further events while nothing arrives.
    let events = service.poll(&mut session);
    assert_eq!(events.len(), 0);

    service.repo.add_chat_message(message("m1", "c1", "hello"));
    let events = service.poll(&mut session);
    assert_eq!(events.len(), 1);
    let delivered = events[0].message.as_ref().expect("a message");
    assert_eq!(delivered.id, "m1");
    assert_eq!(delivered.message_text, "hello");
    assert_eq!(decode_cursor(&events[0].resume_token), Some(1));
}

#[test]
fn preexisting_messages_resume_from_token() {
    // Scenario: channel "c1" has 5 messages -> attach with a token
    // decoding to 3 -> the first delivery is messages 3 and 4 only, in
    // that order.
    let service = create_service(InMemoryRepository::new(), None);
    for i in 0..5 {
        service
            .repo
            .add_chat_message(message(&format!("m{}", i), "c1", &format!("text {}", i)));
    }
    let token = encode_cursor(3);
    let mut session = service
        .open_session(&plain_request(Some("c1"), Some(&token)), false)
        .unwrap();

    let events = service.poll(&mut session);
    assert_eq!(events.len(), 2);
    assert_eq!(events[0].message.as_ref().unwrap().id, "m3");
    assert_eq!(decode_cursor(&events[0].resume_token), Some(4));
    assert_eq!(events[1].message.as_ref().unwrap().id, "m4");
    assert_eq!(decode_cursor(&events[1].resume_token), Some(5));
}

#[test]
fn resuming_with_last_token_sees_only_later_messages() {
    let service = create_service(InMemoryRepository::new(), None);
    for i in 0..5 {
        service
            .repo
            .add_chat_message(message(&format!("m{}", i), "c1", "early"));
    }
    let mut first = service
        .open_session(&plain_request(Some("c1"), None), false)
        .unwrap();
    let events = service.poll(&mut first);
    assert_eq!(events.len(), 5);
    let last_token = events.last().unwrap().resume_token.clone();
    assert_eq!(decode_cursor(&last_token), Some(5));

    service.repo.add_chat_message(message("m5", "c1", "late"));
    service.repo.add_chat_message(message("m6", "c1", "later"));

    let mut resumed = service
        .open_session(&plain_request(Some("c1"), Some(&last_token)), false)
        .unwrap();
    let events = service.poll(&mut resumed);
    assert_eq!(events.len(), 2);
    assert_eq!(events[0].message.as_ref().unwrap().id, "m5");
    assert_eq!(events[1].message.as_ref().unwrap().id, "m6");
}

#[test]
fn cursors_are_monotonic_over_a_session() {
    let service = create_service(InMemoryRepository::new(), None);
    for i in 0..3 {
        service
            .repo
            .add_chat_message(message(&format!("m{}", i), "c1", "x"));
    }
    let mut session = service
        .open_session(&plain_request(Some("c1"), None), false)
        .unwrap();
    let mut positions: Vec<usize> = Vec::new();
    for _ in 0..3 {
        for event in service.poll(&mut session) {
            positions.push(decode_cursor(&event.resume_token).expect("valid cursor"));
        }
        service.repo.add_chat_message(message("extra", "c1", "y"));
    }
    assert!(!positions.is_empty());
    for pair in positions.windows(2) {
        assert!(pair[0] <= pair[1]);
    }
}

#[test]
fn caught_up_token_is_normal() {
    // A cursor past the current tail is the normal "caught up" state.
    let service = create_service(InMemoryRepository::new(), None);
    let token = encode_cursor(10);
    let mut session = service
        .open_session(&plain_request(Some("c1"), Some(&token)), false)
        .unwrap();
    let events = service.poll(&mut session);
    assert_eq!(events.len(), 1);
    assert!(events[0].message.is_none());
    assert_eq!(decode_cursor(&events[0].resume_token), Some(10));
}

#[test]
fn service_keeps_timeout_setting() {
    let service = create_service(InMemoryRepository::new(), Some(30));
    assert_eq!(service.stream_timeout_secs, Some(30));
    let unbounded = create_service(InMemoryRepository::new(), None);
    assert_eq!(unbounded.stream_timeout_secs, None);
}

#[test]
fn auth_required_only_by_the_text_true() {
    assert!(auth_required(Some("true")));
    assert!(!auth_required(Some("false")));
    assert!(!auth_required(Some("TRUE")));
    assert!(!auth_required(Some("1")));
    assert!(!auth_required(Some("")));
    assert!(!auth_required(None));
}

#[test]
fn deadline_ignores_absent_or_zero_bound() {
    assert!(!deadline_reached(1_000_000, None));
    assert!(!deadline_reached(1_000_000, Some(0)));
    assert!(!deadline_reached(29, Some(30)));
    assert!(deadline_reached(30, Some(30)));
    assert!(deadline_reached(31, Some(30)));
}
