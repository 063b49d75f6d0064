//! The control endpoints' core: turning creation requests into stored
//! resources and building the confirmation messages. The surrounding
//! HTTP framing stays outside.

use vstd::prelude::*;
use vstd::string::StringExecFns;

use crate::datastore::Repository;
use crate::domain::{LiveChatMessage, Video};

verus! {

/// Request body for creating a new video.
#[derive(Debug)]
pub struct CreateVideoRequest {
    pub id: String,
    pub channel_id: String,
    pub title: String,
    pub description: String,
    pub channel_title: String,
    pub published_at: String,
    pub live_chat_id: Option<String>,
    pub actual_start_time: Option<String>,
    pub actual_end_time: Option<String>,
    pub scheduled_start_time: Option<String>,
    pub scheduled_end_time: Option<String>,
    pub concurrent_viewers: Option<u64>,
}

/// Request body for creating a new chat message.
#[derive(Debug)]
pub struct CreateChatMessageRequest {
    pub id: String,
    pub live_chat_id: String,
    pub author_channel_id: String,
    pub author_display_name: String,
    pub message_text: String,
    pub published_at: String,
    pub is_verified: bool,
}

/// Response for successful creation.
#[derive(Debug)]
pub struct CreateResponse {
    pub success: bool,
    pub message: String,
}

/// Error response.
#[derive(Debug)]
pub struct ErrorResponse {
    pub success: bool,
    pub error: String,
}

/// Handler core for creating a new video: stores the requested video and
/// confirms it by id. Creation never fails.
pub fn create_video<R: Repository>(repo: &R, request: CreateVideoRequest) -> (r: CreateResponse)
    ensures
        r.success == true,
        r.message@ == "Video '"@ + request.id@ + "' created successfully"@,
{
    let id = request.id.clone();
    let video = Video {
        id: request.id,
        channel_id: request.channel_id,
        title: request.title,
        description: request.description,
        channel_title: request.channel_title,
        published_at: request.published_at,
        live_chat_id: request.live_chat_id,
        actual_start_time: request.actual_start_time,
        actual_end_time: request.actual_end_time,
        scheduled_start_time: request.scheduled_start_time,
        scheduled_end_time: request.scheduled_end_time,
        concurrent_viewers: request.concurrent_viewers,
    };
    repo.add_video(video);

    let mut message = String::from_str("Video '");
    message.append(id.as_str());
    message.append("' created successfully");
    CreateResponse { success: true, message }
}

/// Handler core for creating a new chat message: appends the requested
/// message to its channel's log and confirms it by id. Creation never
/// fails.
pub fn create_chat_message<R: Repository>(repo: &R, request: CreateChatMessageRequest) -> (r:
    CreateResponse)
    ensures
        r.success == true,
        r.message@ == "Chat message '"@ + request.id@ + "' created successfully"@,
{
    let id = request.id.clone();
    let message = LiveChatMessage {
        id: request.id,
        live_chat_id: request.live_chat_id,
        author_channel_id: request.author_channel_id,
        author_display_name: request.author_display_name,
        message_text: request.message_text,
        published_at: request.published_at,
        is_verified: request.is_verified,
    };
    repo.add_chat_message(message);

    let mut response_message = String::from_str("Chat message '");
    response_message.append(id.as_str());
    response_message.append("' created successfully");
    CreateResponse { success: true, message: response_message }
}

} // verus!
