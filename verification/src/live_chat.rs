//! The streaming delivery engine: per-attach session state, the polling
//! state machine that turns the store's current content into delivery
//! events, and the service that ties sessions to the shared repository.
//!
//! A session steps through `STARTING -> POLLING -> (EMITTING <-> POLLING)
//! -> CLOSED`. The functions here cover every decision of that machine;
//! the suspensions around them (the bounded output channel, the polling
//! wait, the deadline clock) belong to the runtime that drives the loop.

use vstd::prelude::*;

use crate::cursor::{cursor_token, cursor_value, decode_cursor, encode_cursor};
use crate::datastore::Repository;
use crate::domain::{msgs_view, opt_msg_view, LiveChatMessage, MessageView};
use crate::text::str_eq;

verus! {

/// An attach request, abstracted from any wire format: the channel to
/// stream, an optional resume token, and which credential shapes the
/// request carries.
#[derive(Debug)]
pub struct AttachRequest {
    pub live_chat_id: Option<String>,
    pub page_token: Option<String>,
    pub has_api_key: bool,
    pub has_authorization: bool,
}

/// Why an attach was rejected. Every rejection is synchronous: no session
/// is created.
#[derive(Clone, Copy, Debug, PartialEq, Eq, Structural)]
pub enum AttachError {
    /// Authorization is enforced and the request carries no credential.
    Unauthenticated,
    /// The request names no live chat.
    MissingLiveChatId,
    /// The resume token is not a valid cursor.
    InvalidPageToken,
}

/// The access gate's decision: a request is authorized when it carries an
/// API-key-shaped parameter or a bearer-token-shaped header.
pub open spec fn gate_authorized(req: AttachRequest) -> bool {
    req.has_api_key || req.has_authorization
}

/// Does the request carry a non-empty resume token? (An absent or empty
/// token is the distinct first-attach case and is not decoded.)
pub open spec fn has_resume_token(req: AttachRequest) -> bool {
    match req.page_token {
        Some(t) => t@.len() > 0,
        None => false,
    }
}

/// The live state of one client's attachment: the channel it reads, the
/// next unseen index, and whether anything was ever emitted.
#[derive(Debug)]
pub struct SessionState {
    pub live_chat_id: String,
    pub position: usize,
    pub sent_any: bool,
}

/// One unit handed to the client: a message together with the cursor
/// naming the position right after it, or a heartbeat (no message)
/// carrying the unchanged cursor.
#[derive(Debug)]
pub struct DeliveryEvent {
    pub message: Option<LiveChatMessage>,
    pub resume_token: String,
}

/// Checks an attach request and builds the session it opens. Exactly the
/// requests that are authorized, name a live chat, and carry no token or
/// a decodable one are accepted; the session starts at the decoded
/// position (or zero), with nothing emitted yet.
pub fn attach(req: &AttachRequest, require_auth: bool) -> (r: Result<SessionState, AttachError>)
    ensures
        (if require_auth && !gate_authorized(*req) {
            r == Err::<SessionState, AttachError>(AttachError::Unauthenticated)
        } else if req.live_chat_id is None {
            r == Err::<SessionState, AttachError>(AttachError::MissingLiveChatId)
        } else if has_resume_token(*req) && cursor_value(req.page_token.unwrap()@) is None {
            r == Err::<SessionState, AttachError>(AttachError::InvalidPageToken)
        } else {
            r matches Ok(s) && s.live_chat_id@ == req.live_chat_id.unwrap()@ && s.sent_any == false
                && (if has_resume_token(*req) {
                cursor_value(req.page_token.unwrap()@) == Some(s.position as int)
            } else {
                s.position == 0
            })
        }),
{
    if require_auth && !req.has_api_key && !req.has_authorization {
        return Err(AttachError::Unauthenticated);
    }
    let live_chat_id = match &req.live_chat_id {
        Some(id) => id.clone(),
        None => {
            return Err(AttachError::MissingLiveChatId);
        },
    };
    let position: usize = match &req.page_token {
        Some(token) => {
            if token.as_str().is_empty() {
                0
            } else {
                match decode_cursor(token.as_str()) {
                    Some(p) => p,
                    None => {
                        return Err(AttachError::InvalidPageToken);
                    },
                }
            }
        },
        None => 0,
    };
    Ok(SessionState { live_chat_id, position, sent_any: false })
}

/// What one polling round emits, as (message, named position) pairs: the
/// whole not-yet-seen tail of the snapshot, each message followed by the
/// position right after it; or one heartbeat naming the unchanged
/// position, on a session that has emitted nothing; or nothing at all.
pub open spec fn round_events(pos: int, sent_any: bool, msgs: Seq<MessageView>) -> Seq<
    (Option<MessageView>, int),
> {
    if 0 <= pos < msgs.len() {
        Seq::new((msgs.len() - pos) as nat, |i: int| (Some(msgs[pos + i]), pos + i + 1))
    } else if !sent_any {
        seq![(None, pos)]
    } else {
        Seq::empty()
    }
}

/// Does `events` carry out one polling round that takes `before` to
/// `after` against `snapshot`? The events must match the round's model
/// pairwise — message for message, and each token encoding exactly the
/// named position.
pub open spec fn round_matches(
    before: SessionState,
    snapshot: Seq<MessageView>,
    events: Seq<DeliveryEvent>,
    after: SessionState,
) -> bool {
    let model = round_events(before.position as int, before.sent_any, snapshot);
    &&& after.live_chat_id == before.live_chat_id
    &&& events.len() == model.len()
    &&& forall|i: int|
        0 <= i < model.len() ==> opt_msg_view((#[trigger] events[i]).message) == model[i].0
            && events[i].resume_token@ == cursor_token(model[i].1 as nat)
    &&& after.position == (if before.position < snapshot.len() {
        snapshot.len() as int
    } else {
        before.position as int
    })
    &&& after.sent_any == (before.sent_any || model.len() > 0)
}

impl SessionState {
    /// One step of the delivery machine against a snapshot: emits the
    /// message at the session's position and advances past it; or, if the
    /// session is caught up and has never emitted, the one heartbeat; or
    /// nothing.
    pub fn next_event(&mut self, messages: &Vec<LiveChatMessage>) -> (r: Option<DeliveryEvent>)
        ensures
            final(self).live_chat_id == old(self).live_chat_id,
            final(self).position >= old(self).position,
            (if old(self).position < messages@.len() {
                (r matches Some(e) && {
                    &&& e.message == Some(messages@[old(self).position as int])
                    &&& e.resume_token@ == cursor_token((old(self).position + 1) as nat)
                    &&& final(self).position == old(self).position + 1
                    &&& final(self).sent_any == true
                })
            } else if !old(self).sent_any {
                (r matches Some(e) && {
                    &&& e.message is None
                    &&& e.resume_token@ == cursor_token(old(self).position as nat)
                    &&& final(self).position == old(self).position
                    &&& final(self).sent_any == true
                })
            } else {
                r is None && *final(self) == *old(self)
            }),
    {
        if self.position < messages.len() {
            let message = messages[self.position].clone();
            let token = encode_cursor(self.position + 1);
            self.position = self.position + 1;
            self.sent_any = true;
            Some(DeliveryEvent { message: Some(message), resume_token: token })
        } else if !self.sent_any {
            let token = encode_cursor(self.position);
            self.sent_any = true;
            Some(DeliveryEvent { message: None, resume_token: token })
        } else {
            None
        }
    }

    /// One whole polling round against a snapshot: every due event, in
    /// order, exactly as `round_events` names them.
    pub fn poll_round(&mut self, messages: &Vec<LiveChatMessage>) -> (events: Vec<DeliveryEvent>)
        ensures
            round_matches(*old(self), msgs_view(messages@), events@, *final(self)),
            final(self).position >= old(self).position,
    {
        let ghost before = *self;
        let ghost snapshot = msgs_view(messages@);
        let mut events: Vec<DeliveryEvent> = Vec::new();
        let n = messages.len();
        if self.position < n {
            let ghost pos0 = self.position as int;
            while self.position < n
                invariant
                    pos0 <= self.position <= n,
                    n == messages@.len(),
                    self.live_chat_id == before.live_chat_id,
                    pos0 == before.position,
                    events@.len() == self.position - pos0,
                    self.sent_any == (self.position > pos0 || before.sent_any),
                    forall|i: int|
                        0 <= i < events@.len() ==> opt_msg_view((#[trigger] events@[i]).message)
                            == Some(msgs_view(messages@)[pos0 + i]) && events@[i].resume_token@
                            == cursor_token((pos0 + i + 1) as nat),
                decreases n - self.position,
            {
                let e = self.next_event(messages);
                match e {
                    Some(ev) => {
                        events.push(ev);
                    },
                    None => {
                        proof {
                            assert(false);
                        }
                    },
                }
            }
            proof {
                let model = round_events(before.position as int, before.sent_any, snapshot);
                assert(model.len() == events@.len());
                assert(round_matches(before, snapshot, events@, *self));
            }
        } else if !self.sent_any {
            let e = self.next_event(messages);
            match e {
                Some(ev) => {
                    events.push(ev);
                },
                None => {
                    proof {
                        assert(false);
                    }
                },
            }
            proof {
                assert(round_matches(before, snapshot, events@, *self));
            }
        } else {
            proof {
                assert(round_matches(before, snapshot, events@, *self));
            }
        }
        events
    }
}

/// The session position after one polling round against `snap`.
pub open spec fn round_end(pos: int, snap: Seq<MessageView>) -> int {
    if 0 <= pos < snap.len() {
        snap.len() as int
    } else {
        pos
    }
}

/// Whether anything has been emitted once a round is over.
pub open spec fn round_sent(pos: int, sent: bool, snap: Seq<MessageView>) -> bool {
    sent || round_events(pos, sent, snap).len() > 0
}

/// The events of a whole session life: one polling round per snapshot
/// read, each against what the store held at that read.
pub open spec fn trace_events(pos: int, sent: bool, snaps: Seq<Seq<MessageView>>) -> Seq<
    (Option<MessageView>, int),
>
    decreases snaps.len(),
{
    if snaps.len() == 0 {
        Seq::empty()
    } else {
        round_events(pos, sent, snaps[0]) + trace_events(
            round_end(pos, snaps[0]),
            round_sent(pos, sent, snaps[0]),
            snaps.drop_first(),
        )
    }
}

proof fn lemma_round_bounds(pos: int, sent: bool, snap: Seq<MessageView>)
    requires
        0 <= pos,
    ensures
        pos <= round_end(pos, snap),
        forall|i: int|
            0 <= i < round_events(pos, sent, snap).len() ==> pos <= (#[trigger] round_events(
                pos,
                sent,
                snap,
            )[i]).1 <= round_end(pos, snap),
        forall|i: int|
            0 <= i < round_events(pos, sent, snap).len() && (#[trigger] round_events(
                pos,
                sent,
                snap,
            )[i]).0 is Some ==> round_events(pos, sent, snap)[i].1 >= pos + 1,
        forall|i: int, j: int|
            0 <= i < j < round_events(pos, sent, snap).len() ==> (#[trigger] round_events(
                pos,
                sent,
                snap,
            )[i]).1 < (#[trigger] round_events(pos, sent, snap)[j]).1,
        sent ==> forall|i: int|
            0 <= i < round_events(pos, sent, snap).len() ==> (#[trigger] round_events(
                pos,
                sent,
                snap,
            )[i]).0 is Some,
{
}

/// Cursor monotonicity over a whole session: the positions named by the
/// emitted cursors strictly increase from event to event, every one is
/// at least the session's starting position, and every message-bearing
/// event names a position strictly beyond it. (The spec-level strict
/// increase subsumes non-decrease with strictness at messages.)
pub proof fn lemma_trace_cursor_monotonic(pos: int, sent: bool, snaps: Seq<Seq<MessageView>>)
    requires
        0 <= pos,
    ensures
        forall|i: int, j: int|
            0 <= i < j < trace_events(pos, sent, snaps).len() ==> (#[trigger] trace_events(
                pos,
                sent,
                snaps,
            )[i]).1 < (#[trigger] trace_events(pos, sent, snaps)[j]).1,
        forall|i: int|
            0 <= i < trace_events(pos, sent, snaps).len() ==> (#[trigger] trace_events(
                pos,
                sent,
                snaps,
            )[i]).1 >= pos,
        forall|i: int|
            0 <= i < trace_events(pos, sent, snaps).len() && (#[trigger] trace_events(
                pos,
                sent,
                snaps,
            )[i]).0 is Some ==> trace_events(pos, sent, snaps)[i].1 >= pos + 1,
        sent ==> forall|i: int|
            0 <= i < trace_events(pos, sent, snaps).len() ==> (#[trigger] trace_events(
                pos,
                sent,
                snaps,
            )[i]).0 is Some,
    decreases snaps.len(),
{
    if snaps.len() > 0 {
        let s0 = snaps[0];
        let head = round_events(pos, sent, s0);
        let p1 = round_end(pos, s0);
        let sent1 = round_sent(pos, sent, s0);
        let tail = trace_events(p1, sent1, snaps.drop_first());
        let t = trace_events(pos, sent, snaps);
        lemma_round_bounds(pos, sent, s0);
        lemma_trace_cursor_monotonic(p1, sent1, snaps.drop_first());
        assert(t == head + tail);
        assert forall|i: int, j: int| 0 <= i < j < t.len() implies (#[trigger] t[i]).1 < (
        #[trigger] t[j]).1 by {
            if j < head.len() {
                assert(t[i] == head[i] && t[j] == head[j]);
            } else if i >= head.len() {
                assert(t[i] == tail[i - head.len()] && t[j] == tail[j - head.len()]);
            } else {
                assert(t[i] == head[i] && t[j] == tail[j - head.len()]);
                // The head is not empty, so everything has been emitted
                // once the tail starts: its events are all messages,
                // strictly past the head's last position.
                assert(sent1);
                assert(tail[j - head.len()].0 is Some);
                assert(tail[j - head.len()].1 >= p1 + 1);
                assert(head[i].1 <= p1);
            }
        }
        assert forall|i: int| 0 <= i < t.len() implies (#[trigger] t[i]).1 >= pos by {
            if i >= head.len() {
                assert(t[i] == tail[i - head.len()]);
            } else {
                assert(t[i] == head[i]);
            }
        }
        assert forall|i: int| 0 <= i < t.len() && (#[trigger] t[i]).0 is Some implies t[i].1 >= pos
            + 1 by {
            if i >= head.len() {
                assert(t[i] == tail[i - head.len()]);
            } else {
                assert(t[i] == head[i]);
            }
        }
        if sent {
            assert forall|i: int| 0 <= i < t.len() implies (#[trigger] t[i]).0 is Some by {
                if i >= head.len() {
                    assert(t[i] == tail[i - head.len()]);
                } else {
                    assert(t[i] == head[i]);
                }
            }
        }
    }
}

/// Cursor monotonicity: within one polling round the emitted cursors name
/// non-decreasing positions, all at least the session's own, and the
/// position named after a message-bearing event strictly exceeds every
/// position named before it.
pub proof fn lemma_cursor_monotonic(pos: int, sent_any: bool, msgs: Seq<MessageView>)
    requires
        0 <= pos,
    ensures
        forall|i: int, j: int|
            0 <= i < j < round_events(pos, sent_any, msgs).len() ==> (#[trigger] round_events(
                pos,
                sent_any,
                msgs,
            )[i]).1 <= (#[trigger] round_events(pos, sent_any, msgs)[j]).1,
        forall|i: int|
            0 <= i < round_events(pos, sent_any, msgs).len() ==> pos <= (#[trigger] round_events(
                pos,
                sent_any,
                msgs,
            )[i]).1,
        forall|i: int, j: int|
            0 <= i < j < round_events(pos, sent_any, msgs).len() && (#[trigger] round_events(
                pos,
                sent_any,
                msgs,
            )[j]).0 is Some ==> (#[trigger] round_events(pos, sent_any, msgs)[i]).1
                < round_events(pos, sent_any, msgs)[j].1,
{
}

/// Heartbeat-once: a caught-up session that has emitted nothing emits
/// exactly one heartbeat carrying its unchanged position, and once it has
/// emitted anything a caught-up session emits nothing further until a
/// message is appended.
pub proof fn lemma_heartbeat_once(pos: int, msgs: Seq<MessageView>)
    requires
        0 <= pos,
        msgs.len() <= pos,
    ensures
        round_events(pos, false, msgs) == seq![(None::<MessageView>, pos)],
        round_events(pos, true, msgs) == Seq::<(Option<MessageView>, int)>::empty(),
{
}

/// Resumability: a fresh session attached at position `before.len()` —
/// the position named by the last event of a session that drained
/// `before` — over the log extended by `after` receives exactly the
/// messages of `after`, in order: no duplicates, no gaps.
pub proof fn lemma_resumability(before: Seq<MessageView>, after: Seq<MessageView>)
    requires
        after.len() > 0,
    ensures
        round_events(before.len() as int, false, before + after).len() == after.len(),
        forall|i: int|
            0 <= i < after.len() ==> (#[trigger] round_events(
                before.len() as int,
                false,
                before + after,
            )[i]).0 == Some(after[i]) && round_events(before.len() as int, false, before + after)[i].1
                == before.len() + i + 1,
{
    let whole = before + after;
    assert(whole.len() == before.len() + after.len());
    assert forall|i: int| 0 <= i < after.len() implies (#[trigger] round_events(
        before.len() as int,
        false,
        whole,
    )[i]).0 == Some(after[i]) && round_events(before.len() as int, false, whole)[i].1
        == before.len() + i + 1 by {
        assert(whole[before.len() + i] == after[i]);
    }
}

/// One live-chat streaming service: the shared repository plus the
/// optional session lifetime bound, in whole seconds (`None` or zero
/// means unbounded).
pub struct LiveChatService<R: Repository> {
    pub repo: R,
    pub stream_timeout_secs: Option<u64>,
}

impl<R: Repository> LiveChatService<R> {
    /// Creates the service around a repository.
    pub fn new(repo: R, stream_timeout_secs: Option<u64>) -> (s: Self)
        ensures
            s.stream_timeout_secs == stream_timeout_secs,
    {
        LiveChatService { repo, stream_timeout_secs }
    }

    /// Checks an attach request for authorization and opens a session
    /// for it; same contract as the free `attach`.
    pub fn open_session(&self, req: &AttachRequest, require_auth: bool) -> (r: Result<
        SessionState,
        AttachError,
    >)
        ensures
            (if require_auth && !gate_authorized(*req) {
                r == Err::<SessionState, AttachError>(AttachError::Unauthenticated)
            } else if req.live_chat_id is None {
                r == Err::<SessionState, AttachError>(AttachError::MissingLiveChatId)
            } else if has_resume_token(*req) && cursor_value(req.page_token.unwrap()@) is None {
                r == Err::<SessionState, AttachError>(AttachError::InvalidPageToken)
            } else {
                r matches Ok(s) && s.live_chat_id@ == req.live_chat_id.unwrap()@ && s.sent_any
                    == false && (if has_resume_token(*req) {
                    cursor_value(req.page_token.unwrap()@) == Some(s.position as int)
                } else {
                    s.position == 0
                })
            }),
    {
        attach(req, require_auth)
    }

    /// One polling round for a session: reads the current snapshot of the
    /// session's channel from the shared store and computes the due
    /// events. Whatever snapshot the racing store handed back, the events
    /// carry out exactly one round against it, every message belongs to
    /// the session's channel, and a session that had emitted nothing yet
    /// always receives at least one event.
    pub fn poll(&self, session: &mut SessionState) -> (events: Vec<DeliveryEvent>)
        ensures
            final(session).live_chat_id == old(session).live_chat_id,
            final(session).position >= old(session).position,
            !old(session).sent_any ==> events@.len() >= 1,
            final(session).sent_any,
            forall|i: int|
                0 <= i < events@.len() ==> ((#[trigger] events@[i]).message matches Some(m)
                    ==> m@.live_chat_id == old(session).live_chat_id@),
            exists|snapshot: Seq<MessageView>|
                {
                    &&& round_matches(*old(session), snapshot, events@, *final(session))
                    &&& forall|i: int|
                        0 <= i < snapshot.len() ==> (#[trigger] snapshot[i]).live_chat_id == old(
                            session,
                        ).live_chat_id@
                },
    {
        let snapshot = self.repo.get_chat_messages(session.live_chat_id.as_str());
        let events = session.poll_round(&snapshot);
        proof {
            let snap = msgs_view(snapshot@);
            assert(forall|i: int|
                0 <= i < snap.len() ==> (#[trigger] snap[i]).live_chat_id == old(
                    session,
                ).live_chat_id@);
            assert(round_matches(*old(session), snap, events@, *final(session)));
        }
        events
    }
}

/// The authorization toggle read from configuration: enforcement is on
/// exactly when the setting is the text "true"; anything else, or no
/// setting at all, leaves it off.
pub fn auth_required(setting: Option<&str>) -> (r: bool)
    ensures
        r == (setting matches Some(s) && s@ == "true"@),
{
    match setting {
        Some(s) => str_eq(s, "true"),
        None => false,
    }
}

/// The deadline decision of the polling loop: a session with no lifetime
/// bound (or a zero bound) never expires; otherwise it closes once the
/// elapsed time reaches the bound.
pub fn deadline_reached(elapsed_secs: u64, stream_timeout_secs: Option<u64>) -> (r: bool)
    ensures
        r == (stream_timeout_secs matches Some(t) && t > 0 && elapsed_secs >= t),
{
    match stream_timeout_secs {
        Some(t) => t > 0 && elapsed_secs >= t,
        None => false,
    }
}

/// Public function to create the streaming service.
pub fn create_service<R: Repository>(repo: R, stream_timeout_secs: Option<u64>) -> (s:
    LiveChatService<R>)
    ensures
        s.stream_timeout_secs == stream_timeout_secs,
{
    LiveChatService::new(repo, stream_timeout_secs)
}

} // verus!
