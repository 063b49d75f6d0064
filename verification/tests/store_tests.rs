use chatstream::datastore::{InMemoryRepository, MessageStore, Repository, VideoStore};
use chatstream::domain::{LiveChatMessage, Video};

fn message(id: &str, chat: &str, text: &str) -> LiveChatMessage {
    LiveChatMessage {
        id: id.to_string(),
        live_chat_id: chat.to_string(),
        author_channel_id: format!("author-of-{}", id),
        author_display_name: "Someone".to_string(),
        message_text: text.to_string(),
        published_at: "2024-06-01T12:00:00+00:00".to_string(),
        is_verified: false,
    }
}

fn video(id: &str, title: &str) -> Video {
    Video {
        id: id.to_string(),
        channel_id: "chan".to_string(),
        title: title.to_string(),
        description: "desc".to_string(),
        channel_title: "chan title".to_string(),
        published_at: "2024-06-01T12:00:00+00:00".to_string(),
        live_chat_id: None,
        actual_start_time: None,
        actual_end_time: None,
        scheduled_start_time: None,
        scheduled_end_time: None,
        concurrent_viewers: None,
    }
}

#[test]
fn message_store_appends_in_order() {
    let mut store = MessageStore::new();
    store.append(message("a", "c1", "first"));
    store.append(message("b", "c1", "second"));
    store.append(message("c", "c2", "other channel"));
    let c1 = store.read("c1");
    assert_eq!(c1.len(), 2);
    assert_eq!(c1[0].id, "a");
    assert_eq!(c1[0].message_text, "first");
    assert_eq!(c1[1].id, "b");
    let c2 = store.read("c2");
    assert_eq!(c2.len(), 1);
    assert_eq!(c2[0].id, "c");
}

#[test]
fn message_store_unknown_key_reads_empty() {
    let store = MessageStore::new();
    assert!(store.read("nobody").is_empty());
}

#[test]
fn message_store_keeps_duplicate_ids() {
    let mut store = MessageStore::new();
    store.append(message("dup", "c1", "once"));
    store.append(message("dup", "c1", "twice"));
    let c1 = store.read("c1");
    assert_eq!(c1.len(), 2);
    assert_eq!(c1[0].message_text, "once");
    assert_eq!(c1[1].message_text, "twice");
}

#[test]
fn video_store_insert_replaces_by_id() {
    let mut store = VideoStore::new();
    store.put(video("v1", "old title"));
    store.put(video("v2", "second"));
    store.put(video("v1", "new title"));
    let v1 = store.get("v1").expect("v1 present");
    assert_eq!(v1.title, "new title");
    assert_eq!(store.all().len(), 2);
    assert!(store.get("v3").is_none());
}

#[test]
fn repository_starts_with_dummy_data() {
    let repo = InMemoryRepository::new();
    let main = repo.get_chat_messages("live-chat-id-1");
    assert_eq!(main.len(), 5);
    for (i, msg) in main.iter().enumerate() {
        assert_eq!(msg.id, format!("msg-id-{}", i));
        assert_eq!(msg.live_chat_id, "live-chat-id-1");
        assert_eq!(msg.author_channel_id, format!("channel-id-{}", i));
        assert_eq!(msg.author_display_name, format!("User {}", i));
        assert_eq!(msg.message_text, format!("Hello world {}", i));
        assert_eq!(msg.published_at, "2023-01-01T00:00:00+00:00");
        assert!(msg.is_verified);
    }
    let test = repo.get_chat_messages("test-chat-id");
    assert_eq!(test.len(), 5);
    assert_eq!(test[0].id, "test-msg-id-0");
    assert_eq!(test[4].message_text, "Test message 4");

    let v = repo.get_video("test-video-1").expect("dummy video present");
    assert_eq!(v.title, "Mock Live Stream Video");
    assert_eq!(v.live_chat_id.as_deref(), Some("live-chat-id-1"));
    assert_eq!(v.concurrent_viewers, Some(42));
    assert_eq!(repo.get_videos().len(), 1);
    assert!(repo.get_video("missing").is_none());
}

#[test]
fn repository_append_and_read_through_locks() {
    let repo = InMemoryRepository::new();
    repo.add_chat_message(message("x", "live-chat-id-1", "a new message"));
    let main = repo.get_chat_messages("live-chat-id-1");
    assert_eq!(main.len(), 6);
    assert_eq!(main[5].id, "x");

    repo.add_chat_message(message("y", "fresh-channel", "hello"));
    let fresh = repo.get_chat_messages("fresh-channel");
    assert_eq!(fresh.len(), 1);
    assert_eq!(fresh[0].message_text, "hello");

    repo.add_video(video("test-video-1", "replaced"));
    assert_eq!(repo.get_videos().len(), 1);
    assert_eq!(repo.get_video("test-video-1").unwrap().title, "replaced");
}

#[test]
fn repository_default_matches_new() {
    let repo = InMemoryRepository::default();
    assert_eq!(repo.get_chat_messages("live-chat-id-1").len(), 5);
}
