//! The two resource types that the services exchange: videos and live chat
//! messages. Both are plain immutable values; timestamps travel as strings
//! and are never interpreted by the engine.

use vstd::prelude::*;

verus! {

/// Mathematical image of a `Video`: every string field as a sequence of
/// characters.
pub struct VideoView {
    pub id: Seq<char>,
    pub channel_id: Seq<char>,
    pub title: Seq<char>,
    pub description: Seq<char>,
    pub channel_title: Seq<char>,
    pub published_at: Seq<char>,
    pub live_chat_id: Option<Seq<char>>,
    pub actual_start_time: Option<Seq<char>>,
    pub actual_end_time: Option<Seq<char>>,
    pub scheduled_start_time: Option<Seq<char>>,
    pub scheduled_end_time: Option<Seq<char>>,
    pub concurrent_viewers: Option<u64>,
}

/// Represents a video resource.
#[derive(Debug)]
pub struct Video {
    pub id: String,
    pub channel_id: String,
    pub title: String,
    pub description: String,
    pub channel_title: String,
    pub published_at: String,
    pub live_chat_id: Option<String>,
    pub actual_start_time: Option<String>,
    pub actual_end_time: Option<String>,
    pub scheduled_start_time: Option<String>,
    pub scheduled_end_time: Option<String>,
    pub concurrent_viewers: Option<u64>,
}

/// The view of an optional string field.
pub open spec fn opt_str_view(o: Option<String>) -> Option<Seq<char>> {
    match o {
        Some(s) => Some(s@),
        None => None,
    }
}

impl View for Video {
    type V = VideoView;

    open spec fn view(&self) -> VideoView {
        VideoView {
            id: self.id@,
            channel_id: self.channel_id@,
            title: self.title@,
            description: self.description@,
            channel_title: self.channel_title@,
            published_at: self.published_at@,
            live_chat_id: opt_str_view(self.live_chat_id),
            actual_start_time: opt_str_view(self.actual_start_time),
            actual_end_time: opt_str_view(self.actual_end_time),
            scheduled_start_time: opt_str_view(self.scheduled_start_time),
            scheduled_end_time: opt_str_view(self.scheduled_end_time),
            concurrent_viewers: self.concurrent_viewers,
        }
    }
}

/// Copies an optional string, keeping its view.
pub(crate) fn clone_opt_string(o: &Option<String>) -> (r: Option<String>)
    ensures
        r == *o,
{
    match o {
        Some(s) => Some(s.clone()),
        None => None,
    }
}

impl Clone for Video {
    fn clone(&self) -> (res: Self)
        ensures
            res == *self,
    {
        Video {
            id: self.id.clone(),
            channel_id: self.channel_id.clone(),
            title: self.title.clone(),
            description: self.description.clone(),
            channel_title: self.channel_title.clone(),
            published_at: self.published_at.clone(),
            live_chat_id: clone_opt_string(&self.live_chat_id),
            actual_start_time: clone_opt_string(&self.actual_start_time),
            actual_end_time: clone_opt_string(&self.actual_end_time),
            scheduled_start_time: clone_opt_string(&self.scheduled_start_time),
            scheduled_end_time: clone_opt_string(&self.scheduled_end_time),
            concurrent_viewers: self.concurrent_viewers,
        }
    }
}

/// Mathematical image of a `LiveChatMessage`.
pub struct MessageView {
    pub id: Seq<char>,
    pub live_chat_id: Seq<char>,
    pub author_channel_id: Seq<char>,
    pub author_display_name: Seq<char>,
    pub message_text: Seq<char>,
    pub published_at: Seq<char>,
    pub is_verified: bool,
}

/// Represents a live chat message. Identity is `id`, but uniqueness of `id`
/// is deliberately not enforced anywhere: the store accepts duplicates.
#[derive(Debug)]
pub struct LiveChatMessage {
    pub id: String,
    pub live_chat_id: String,
    pub author_channel_id: String,
    pub author_display_name: String,
    pub message_text: String,
    pub published_at: String,
    pub is_verified: bool,
}

impl View for LiveChatMessage {
    type V = MessageView;

    open spec fn view(&self) -> MessageView {
        MessageView {
            id: self.id@,
            live_chat_id: self.live_chat_id@,
            author_channel_id: self.author_channel_id@,
            author_display_name: self.author_display_name@,
            message_text: self.message_text@,
            published_at: self.published_at@,
            is_verified: self.is_verified,
        }
    }
}

impl Clone for LiveChatMessage {
    fn clone(&self) -> (res: Self)
        ensures
            res == *self,
    {
        LiveChatMessage {
            id: self.id.clone(),
            live_chat_id: self.live_chat_id.clone(),
            author_channel_id: self.author_channel_id.clone(),
            author_display_name: self.author_display_name.clone(),
            message_text: self.message_text.clone(),
            published_at: self.published_at.clone(),
            is_verified: self.is_verified,
        }
    }
}

/// The views of a sequence of messages.
pub open spec fn msgs_view(v: Seq<LiveChatMessage>) -> Seq<MessageView> {
    v.map_values(|m: LiveChatMessage| m@)
}

/// The view of an optional message.
pub open spec fn opt_msg_view(o: Option<LiveChatMessage>) -> Option<MessageView> {
    match o {
        Some(m) => Some(m@),
        None => None,
    }
}

} // verus!
