use chatstream::control::{
    create_chat_message, create_video, CreateChatMessageRequest, CreateVideoRequest,
};
use chatstream::datastore::{InMemoryRepository, Repository};
use chatstream::text::{decimal_string, first_segment, prefixed_number, seg_match, str_eq};
use chatstream::video_api::{videos_list, VideosListParams};

fn video_request(id: &str, title: &str) -> CreateVideoRequest {
    CreateVideoRequest {
        id: id.to_string(),
        channel_id: "chan".to_string(),
        title: title.to_string(),
        description: "desc".to_string(),
        channel_title: "chan title".to_string(),
        published_at: "2024-06-01T12:00:00+00:00".to_string(),
        live_chat_id: Some("chat-of-the-video".to_string()),
        actual_start_time: Some("2024-06-01T12:00:00+00:00".to_string()),
        actual_end_time: None,
        scheduled_start_time: None,
        scheduled_end_time: None,
        concurrent_viewers: Some(7),
    }
}

#[test]
fn create_video_stores_and_confirms() {
    let repo = InMemoryRepository::new();
    let resp = create_video(&repo, video_request("new-video", "A Title"));
    assert!(resp.success);
    assert_eq!(resp.message, "Video 'new-video' created successfully");
    let stored = repo.get_video("new-video").expect("stored");
    assert_eq!(stored.title, "A Title");
    assert_eq!(stored.live_chat_id.as_deref(), Some("chat-of-the-video"));
}

#[test]
fn create_chat_message_stores_and_confirms() {
    let repo = InMemoryRepository::new();
    let request = CreateChatMessageRequest {
        id: "cm-1".to_string(),
        live_chat_id: "some-chat".to_string(),
        author_channel_id: "author".to_string(),
        author_display_name: "Author Name".to_string(),
        message_text: "hi there".to_string(),
        published_at: "2024-06-01T12:00:00+00:00".to_string(),
        is_verified: false,
    };
    let resp = create_chat_message(&repo, request);
    assert!(resp.success);
    assert_eq!(resp.message, "Chat message 'cm-1' created successfully");
    let log = repo.get_chat_messages("some-chat");
    assert_eq!(log.len(), 1);
    assert_eq!(log[0].message_text, "hi there");
}

fn params(id: &str, part: &str) -> VideosListParams {
    VideosListParams { id: id.to_string(), part: part.to_string() }
}

#[test]
fn videos_list_requires_part() {
    let repo = InMemoryRepository::new();
    let err = videos_list(&repo, params("test-video-1", "")).unwrap_err();
    assert_eq!(err.error.code, 400);
    assert_eq!(err.error.message, "Required parameter: part");
    assert_eq!(err.error.errors.len(), 1);
    assert_eq!(err.error.errors[0].domain, "global");
    assert_eq!(err.error.errors[0].reason, "required");
    assert_eq!(err.error.errors[0].message, "Required parameter: part");
}

#[test]
fn videos_list_requires_id() {
    let repo = InMemoryRepository::new();
    let err = videos_list(&repo, params("", "snippet")).unwrap_err();
    assert_eq!(err.error.code, 400);
    assert_eq!(err.error.message, "Required parameter: id");
}

#[test]
fn videos_list_returns_requested_parts() {
    let repo = InMemoryRepository::new();
    let resp = videos_list(&repo, params("test-video-1", "snippet")).unwrap();
    assert_eq!(resp.kind, "youtube#videoListResponse");
    assert_eq!(resp.etag, "etag-list-1");
    assert!(resp.next_page_token.is_none());
    assert_eq!(resp.page_info.total_results, 1);
    assert_eq!(resp.page_info.results_per_page, 1);
    assert_eq!(resp.items.len(), 1);
    let item = &resp.items[0];
    assert_eq!(item.kind, "youtube#video");
    assert_eq!(item.etag, "etag-video-1");
    assert_eq!(item.id, "test-video-1");
    let snippet = item.snippet.as_ref().expect("snippet requested");
    assert_eq!(snippet.title, "Mock Live Stream Video");
    assert_eq!(snippet.channel_id, "channel-1");
    assert!(item.live_streaming_details.is_none());
}

#[test]
fn videos_list_returns_live_streaming_details() {
    let repo = InMemoryRepository::new();
    let resp = videos_list(&repo, params("test-video-1", "liveStreamingDetails")).unwrap();
    let item = &resp.items[0];
    assert!(item.snippet.is_none());
    let details = item.live_streaming_details.as_ref().expect("details requested");
    assert_eq!(details.active_live_chat_id, "live-chat-id-1");
    assert_eq!(details.concurrent_viewers, Some(42));
}

#[test]
fn videos_list_trims_and_splits_parts() {
    let repo = InMemoryRepository::new();
    let resp =
        videos_list(&repo, params("test-video-1", " snippet , liveStreamingDetails ")).unwrap();
    let item = &resp.items[0];
    assert!(item.snippet.is_some());
    assert!(item.live_streaming_details.is_some());
}

#[test]
fn videos_list_unknown_id_yields_empty_items() {
    let repo = InMemoryRepository::new();
    let resp = videos_list(&repo, params("missing-video", "snippet")).unwrap();
    assert_eq!(resp.items.len(), 0);
    assert_eq!(resp.page_info.total_results, 0);
    assert_eq!(resp.page_info.results_per_page, 0);
}

#[test]
fn videos_list_uses_first_id_of_a_list() {
    let repo = InMemoryRepository::new();
    let resp = videos_list(&repo, params("test-video-1,other-video", "snippet")).unwrap();
    assert_eq!(resp.items.len(), 1);
    assert_eq!(resp.items[0].id, "test-video-1");
}

#[test]
fn text_helpers_compute_expected_values() {
    assert_eq!(decimal_string(0), "0");
    assert_eq!(decimal_string(9), "9");
    assert_eq!(decimal_string(42), "42");
    assert_eq!(decimal_string(1234567), "1234567");
    assert_eq!(prefixed_number("msg-id-", 3), "msg-id-3");
    assert_eq!(first_segment("a,b,c"), "a");
    assert_eq!(first_segment("plain"), "plain");
    assert_eq!(first_segment(""), "");
    assert!(str_eq("same", "same"));
    assert!(!str_eq("same", "Same"));
    assert!(seg_match("a, b ,c", "b"));
    assert!(!seg_match("a, b ,c", "d"));
    assert!(seg_match("snippet", "snippet"));
}
