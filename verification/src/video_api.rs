//! The video listing endpoint's core: parameter validation, part
//! selection, and assembly of the list response from the stored video.
//! The surrounding HTTP framing stays outside.

use vstd::prelude::*;
use vstd::string::StringExecFns;

use crate::datastore::Repository;
use crate::domain::{clone_opt_string, opt_str_view, VideoView};
use crate::text::{comma_from, first_segment, seg_match, segments, trimmed};

verus! {

/// Query parameters of a video list request.
#[derive(Debug)]
pub struct VideosListParams {
    pub id: String,
    pub part: String,
}

/// Error response of the video listing endpoint.
#[derive(Debug)]
pub struct ErrorResponse {
    pub error: ErrorDetail,
}

/// The error's code, message, and itemized reasons.
#[derive(Debug)]
pub struct ErrorDetail {
    pub code: u16,
    pub message: String,
    pub errors: Vec<ErrorItem>,
}

/// One itemized error reason.
#[derive(Debug)]
pub struct ErrorItem {
    pub domain: String,
    pub reason: String,
    pub message: String,
}

/// The list response: fixed kind and etag, paging counters, and at most
/// one video item.
#[derive(Debug)]
pub struct VideosListResponse {
    pub kind: String,
    pub etag: String,
    pub page_info: PageInfo,
    pub next_page_token: Option<String>,
    pub items: Vec<Video>,
}

/// Paging counters.
#[derive(Debug)]
pub struct PageInfo {
    pub total_results: i32,
    pub results_per_page: i32,
}

/// One video resource of the listing, with its requested parts.
#[derive(Debug)]
pub struct Video {
    pub kind: String,
    pub etag: String,
    pub id: String,
    pub snippet: Option<VideoSnippet>,
    pub live_streaming_details: Option<LiveStreamingDetails>,
}

/// The snippet part of a video resource.
#[derive(Debug)]
pub struct VideoSnippet {
    pub published_at: String,
    pub channel_id: String,
    pub title: String,
    pub description: String,
    pub channel_title: String,
}

/// The live streaming details part of a video resource.
#[derive(Debug)]
pub struct LiveStreamingDetails {
    pub active_live_chat_id: String,
    pub actual_start_time: Option<String>,
    pub actual_end_time: Option<String>,
    pub scheduled_start_time: Option<String>,
    pub scheduled_end_time: Option<String>,
    pub concurrent_viewers: Option<u64>,
}

/// A missing-parameter rejection: code 400, with one itemized reason.
pub open spec fn err_shape(e: ErrorResponse, msg: Seq<char>) -> bool {
    &&& e.error.code == 400
    &&& e.error.message@ == msg
    &&& e.error.errors@.len() == 1
    &&& e.error.errors@[0].domain@ == "global"@
    &&& e.error.errors@[0].reason@ == "required"@
    &&& e.error.errors@[0].message@ == msg
}

/// Does the `part` parameter ask for the part named `name`?
pub open spec fn wants_part(part: Seq<char>, name: Seq<char>) -> bool {
    exists|k: int| 0 <= k < segments(part).len() && trimmed(#[trigger] segments(part)[k]) == name
}

/// Is `item` the listing of the stored video `data`, carrying exactly the
/// parts that `part` asks for?
pub open spec fn item_shape(item: Video, part: Seq<char>, data: VideoView) -> bool {
    &&& item.kind@ == "youtube#video"@
    &&& item.etag@ == "etag-video-1"@
    &&& item.id@ == data.id
    &&& (if wants_part(part, "snippet"@) {
        item.snippet matches Some(sn) && sn.published_at@ == data.published_at && sn.channel_id@
            == data.channel_id && sn.title@ == data.title && sn.description@ == data.description
            && sn.channel_title@ == data.channel_title
    } else {
        item.snippet is None
    })
    &&& (if wants_part(part, "liveStreamingDetails"@) && data.live_chat_id is Some {
        item.live_streaming_details matches Some(d) && d.active_live_chat_id@
            == data.live_chat_id.unwrap() && opt_str_view(d.actual_start_time)
            == data.actual_start_time && opt_str_view(d.actual_end_time) == data.actual_end_time
            && opt_str_view(d.scheduled_start_time) == data.scheduled_start_time && opt_str_view(
            d.scheduled_end_time,
        ) == data.scheduled_end_time && d.concurrent_viewers == data.concurrent_viewers
    } else {
        item.live_streaming_details is None
    })
}

/// Builds the missing-parameter rejection for `msg`.
fn required_error(msg: &str) -> (e: ErrorResponse)
    ensures
        err_shape(e, msg@),
{
    let mut errors: Vec<ErrorItem> = Vec::new();
    errors.push(
        ErrorItem {
            domain: String::from_str("global"),
            reason: String::from_str("required"),
            message: String::from_str(msg),
        },
    );
    ErrorResponse {
        error: ErrorDetail { code: 400, message: String::from_str(msg), errors },
    }
}

/// Handler core of the video listing: rejects a request that names no
/// `part` or no `id`; otherwise looks up the first id named and answers
/// with the fixed list envelope around at most one item, shaped by the
/// requested parts.
pub fn videos_list<R: Repository>(repo: &R, params: VideosListParams) -> (r: Result<
    VideosListResponse,
    ErrorResponse,
>)
    ensures
        params.part@.len() == 0 ==> (r matches Err(e) && err_shape(e, "Required parameter: part"@)),
        params.part@.len() > 0 && params.id@.len() == 0 ==> (r matches Err(e) && err_shape(
            e,
            "Required parameter: id"@,
        )),
        params.part@.len() > 0 && params.id@.len() > 0 ==> (r matches Ok(resp) && {
            &&& resp.kind@ == "youtube#videoListResponse"@
            &&& resp.etag@ == "etag-list-1"@
            &&& resp.next_page_token is None
            &&& resp.items@.len() <= 1
            &&& resp.page_info.total_results == resp.items@.len()
            &&& resp.page_info.results_per_page == resp.items@.len()
            &&& (resp.items@.len() == 1 ==> exists|data: VideoView|
                #[trigger] item_shape(resp.items@[0], params.part@, data) && data.id
                    == params.id@.subrange(0, comma_from(params.id@, 0)))
        }),
{
    if params.part.as_str().is_empty() {
        return Err(required_error("Required parameter: part"));
    }
    if params.id.as_str().is_empty() {
        return Err(required_error("Required parameter: id"));
    }

    proof {
        crate::text::lemma_comma_from_props(params.id@, 0);
    }
    let video_id = first_segment(params.id.as_str());
    let video_data = repo.get_video(video_id.as_str());

    let items: Vec<Video> = match video_data {
        Some(video_data) => {
            let include_snippet = seg_match(params.part.as_str(), "snippet");
            let include_live = seg_match(params.part.as_str(), "liveStreamingDetails");

            let snippet = if include_snippet {
                Some(
                    VideoSnippet {
                        published_at: video_data.published_at.clone(),
                        channel_id: video_data.channel_id.clone(),
                        title: video_data.title.clone(),
                        description: video_data.description.clone(),
                        channel_title: video_data.channel_title.clone(),
                    },
                )
            } else {
                None
            };

            let live_streaming_details = if include_live {
                match &video_data.live_chat_id {
                    Some(live_chat_id) => Some(
                        LiveStreamingDetails {
                            active_live_chat_id: live_chat_id.clone(),
                            actual_start_time: clone_opt_string(&video_data.actual_start_time),
                            actual_end_time: clone_opt_string(&video_data.actual_end_time),
                            scheduled_start_time: clone_opt_string(
                                &video_data.scheduled_start_time,
                            ),
                            scheduled_end_time: clone_opt_string(&video_data.scheduled_end_time),
                            concurrent_viewers: video_data.concurrent_viewers,
                        },
                    ),
                    None => None,
                }
            } else {
                None
            };

            let item = Video {
                kind: String::from_str("youtube#video"),
                etag: String::from_str("etag-video-1"),
                id: video_data.id.clone(),
                snippet,
                live_streaming_details,
            };
            proof {
                assert(item_shape(item, params.part@, video_data@));
            }
            let mut v: Vec<Video> = Vec::new();
            v.push(item);
            proof {
                assert(v@[0] == item);
                assert(item_shape(v@[0], params.part@, video_data@));
                assert(video_data@.id == params.id@.subrange(0, comma_from(params.id@, 0)));
                assert(exists|data: VideoView|
                    #[trigger] item_shape(v@[0], params.part@, data) && data.id
                        == params.id@.subrange(0, comma_from(params.id@, 0)));
            }
            v
        },
        None => Vec::new(),
    };

    let count: i32 = if items.len() == 0 {
        0
    } else {
        1
    };

    Ok(
        VideosListResponse {
            kind: String::from_str("youtube#videoListResponse"),
            etag: String::from_str("etag-list-1"),
            page_info: PageInfo { total_results: count, results_per_page: count },
            next_page_token: None,
            items,
        },
    )
}

} // verus!
