//! The data layer: a pure append-ordered message store keyed by live chat
//! id, a keyed video store, and the shared in-memory repository that holds
//! both behind verified readers-writer locks.

use vstd::prelude::*;

use crate::domain::{msgs_view, LiveChatMessage, MessageView, Video, VideoView};
use crate::text::{prefixed_number, str_eq};
use vstd::rwlock::{RwLock, RwLockPredicate};

verus! {

/// One channel's log: the messages that share one live chat id, in
/// insertion order.
pub struct ChannelLog {
    pub key: String,
    pub messages: Vec<LiveChatMessage>,
}

/// Every message in a log carries the log's own key.
pub open spec fn log_coherent(log: ChannelLog) -> bool {
    forall|i: int|
        0 <= i < log.messages@.len() ==> (#[trigger] log.messages@[i])@.live_chat_id == log.key@
}

/// The messages under key `k`, scanning `logs` from index `j` on.
pub open spec fn entry_from(logs: Seq<ChannelLog>, k: Seq<char>, j: int) -> Seq<MessageView>
    decreases logs.len() - j,
{
    if j < 0 || j >= logs.len() {
        Seq::empty()
    } else if logs[j].key@ == k {
        msgs_view(logs[j].messages@)
    } else {
        entry_from(logs, k, j + 1)
    }
}

/// The messages under key `k`: those of the first log with that key, or
/// nothing.
pub open spec fn store_entry(logs: Seq<ChannelLog>, k: Seq<char>) -> Seq<MessageView> {
    entry_from(logs, k, 0)
}

/// Is some log from index `j` on keyed by `k`?
pub open spec fn has_key_from(logs: Seq<ChannelLog>, k: Seq<char>, j: int) -> bool {
    exists|i: int| j <= i < logs.len() && (#[trigger] logs[i]).key@ == k
}

/// An append-ordered collection of messages grouped by live chat id.
/// Unknown keys read as empty logs; appends go to the tail of their key's
/// log. Its mathematical content is a total map from key to message
/// sequence.
pub struct MessageStore {
    logs: Vec<ChannelLog>,
}

impl View for MessageStore {
    type V = Map<Seq<char>, Seq<MessageView>>;

    closed spec fn view(&self) -> Map<Seq<char>, Seq<MessageView>> {
        Map::new(|k: Seq<char>| true, |k: Seq<char>| store_entry(self.logs@, k))
    }
}

proof fn lemma_entry_from_no_match(logs: Seq<ChannelLog>, k: Seq<char>, j: int)
    requires
        0 <= j,
        !has_key_from(logs, k, j),
    ensures
        entry_from(logs, k, j) == Seq::<MessageView>::empty(),
    decreases logs.len() - j,
{
    if j < logs.len() {
        assert(logs[j].key@ != k);
        lemma_entry_from_no_match(logs, k, j + 1);
    }
}

proof fn lemma_entry_from_first(logs: Seq<ChannelLog>, k: Seq<char>, j: int, i: int)
    requires
        0 <= j <= i < logs.len(),
        logs[i].key@ == k,
        forall|j2: int| j <= j2 < i ==> (#[trigger] logs[j2]).key@ != k,
    ensures
        entry_from(logs, k, j) == msgs_view(logs[i].messages@),
    decreases i - j,
{
    if j < i {
        lemma_entry_from_first(logs, k, j + 1, i);
    }
}

proof fn lemma_entry_from_update_other(
    logs: Seq<ChannelLog>,
    i: int,
    log2: ChannelLog,
    k: Seq<char>,
    j: int,
)
    requires
        0 <= i < logs.len(),
        0 <= j,
        logs[i].key@ != k,
        log2.key@ != k,
    ensures
        entry_from(logs.update(i, log2), k, j) == entry_from(logs, k, j),
    decreases logs.len() - j,
{
    if j < logs.len() {
        lemma_entry_from_update_other(logs, i, log2, k, j + 1);
    }
}

proof fn lemma_entry_from_push(logs: Seq<ChannelLog>, l: ChannelLog, k: Seq<char>, j: int)
    requires
        0 <= j <= logs.len(),
    ensures
        entry_from(logs.push(l), k, j) == if has_key_from(logs, k, j) {
            entry_from(logs, k, j)
        } else if l.key@ == k {
            msgs_view(l.messages@)
        } else {
            Seq::<MessageView>::empty()
        },
    decreases logs.len() - j,
{
    let pushed = logs.push(l);
    if j == logs.len() {
        assert(pushed[j] == l);
        assert(entry_from(pushed, k, j + 1) == Seq::<MessageView>::empty());
        assert(!has_key_from(logs, k, j));
    } else {
        assert(pushed[j] == logs[j]);
        lemma_entry_from_push(logs, l, k, j + 1);
        if logs[j].key@ == k {
            assert(has_key_from(logs, k, j));
        } else {
            assert(has_key_from(logs, k, j) == has_key_from(logs, k, j + 1));
        }
    }
}

/// Finds the first log keyed by `k`.
fn find_log(logs: &Vec<ChannelLog>, k: &str) -> (r: Option<usize>)
    ensures
        (match r {
            Some(i) => i < logs@.len() && logs@[i as int].key@ == k@ && forall|j: int|
                0 <= j < i ==> (#[trigger] logs@[j]).key@ != k@,
            None => forall|j: int| 0 <= j < logs@.len() ==> (#[trigger] logs@[j]).key@ != k@,
        }),
{
    let n = logs.len();
    let mut i: usize = 0;
    while i < n
        invariant
            0 <= i <= n,
            n == logs@.len(),
            forall|j: int| 0 <= j < i ==> (#[trigger] logs@[j]).key@ != k@,
        decreases n - i,
    {
        if str_eq(logs[i].key.as_str(), k) {
            return Some(i);
        }
        i = i + 1;
    }
    None
}

impl MessageStore {
    /// Well-formedness: keys are pairwise distinct and every log is
    /// coherent.
    pub closed spec fn wf(&self) -> bool {
        &&& forall|i: int, j: int|
            0 <= i < j < self.logs@.len() ==> (#[trigger] self.logs@[i]).key@ != (
            #[trigger] self.logs@[j]).key@
        &&& forall|i: int| 0 <= i < self.logs@.len() ==> log_coherent(#[trigger] self.logs@[i])
    }

    /// An empty store: every key reads as the empty log.
    pub fn new() -> (s: Self)
        ensures
            s.wf(),
            forall|k: Seq<char>| s@[k] == Seq::<MessageView>::empty(),
    {
        MessageStore { logs: Vec::new() }
    }

    /// Appends `message` at the tail of the log for its own live chat id,
    /// creating the log if absent. Nothing else changes.
    pub fn append(&mut self, message: LiveChatMessage)
        requires
            old(self).wf(),
        ensures
            final(self).wf(),
            final(self)@ == old(self)@.insert(
                message.live_chat_id@,
                old(self)@[message.live_chat_id@].push(message@),
            ),
    {
        let ghost k = message.live_chat_id@;
        let ghost m = message@;
        let ghost logs0 = self.logs@;
        match find_log(&self.logs, message.live_chat_id.as_str()) {
            Some(i) => {
                let mut log = self.logs.remove(i);
                log.messages.push(message);
                self.logs.insert(i, log);
                proof {
                    assert(self.logs@ =~= logs0.update(i as int, log));
                    assert(msgs_view(log.messages@) =~= msgs_view(logs0[i as int].messages@).push(
                        m,
                    ));
                    lemma_entry_from_first(logs0, k, 0, i as int);
                    lemma_entry_from_first(self.logs@, k, 0, i as int);
                    assert forall|k2: Seq<char>| k2 != k implies store_entry(self.logs@, k2)
                        == store_entry(logs0, k2) by {
                        lemma_entry_from_update_other(logs0, i as int, log, k2, 0);
                    }
                    assert(final(self)@ =~= old(self)@.insert(k, old(self)@[k].push(m)));
                }
            },
            None => {
                let mut messages: Vec<LiveChatMessage> = Vec::new();
                let key = message.live_chat_id.clone();
                messages.push(message);
                let log = ChannelLog { key, messages };
                self.logs.push(log);
                proof {
                    assert(self.logs@ =~= logs0.push(log));
                    assert(msgs_view(log.messages@) =~= Seq::<MessageView>::empty().push(m));
                    assert forall|k2: Seq<char>|
                        #![auto]
                        true implies store_entry(self.logs@, k2) == (if k2 == k {
                        store_entry(logs0, k2).push(m)
                    } else {
                        store_entry(logs0, k2)
                    }) by {
                        lemma_entry_from_push(logs0, log, k2, 0);
                        if k2 == k {
                            assert(!has_key_from(logs0, k2, 0));
                            lemma_entry_from_no_match(logs0, k2, 0);
                        } else {
                            if has_key_from(logs0, k2, 0) {
                            } else {
                                lemma_entry_from_no_match(logs0, k2, 0);
                            }
                        }
                    }
                    assert(final(self)@ =~= old(self)@.insert(k, old(self)@[k].push(m)));
                }
            },
        }
    }

    /// Reads a full copy of the log under `live_chat_id`; an unknown key
    /// reads as empty.
    pub fn read(&self, live_chat_id: &str) -> (msgs: Vec<LiveChatMessage>)
        requires
            self.wf(),
        ensures
            msgs_view(msgs@) == self@[live_chat_id@],
            forall|i: int|
                0 <= i < msgs@.len() ==> (#[trigger] msgs@[i])@.live_chat_id == live_chat_id@,
    {
        match find_log(&self.logs, live_chat_id) {
            Some(i) => {
                proof {
                    lemma_entry_from_first(self.logs@, live_chat_id@, 0, i as int);
                }
                let log = &self.logs[i];
                let n = log.messages.len();
                let mut out: Vec<LiveChatMessage> = Vec::new();
                let mut j: usize = 0;
                while j < n
                    invariant
                        0 <= j <= n,
                        n == log.messages@.len(),
                        out@ =~= log.messages@.take(j as int),
                    decreases n - j,
                {
                    out.push(log.messages[j].clone());
                    proof {
                        assert(out@ =~= log.messages@.take(j + 1));
                    }
                    j = j + 1;
                }
                proof {
                    assert(out@ =~= log.messages@);
                    assert(msgs_view(out@) =~= msgs_view(log.messages@));
                }
                out
            },
            None => {
                proof {
                    lemma_entry_from_no_match(self.logs@, live_chat_id@, 0);
                }
                Vec::new()
            },
        }
    }
}

/// The video under key `k`, scanning `vs` from index `j` on.
pub open spec fn video_from(vs: Seq<Video>, k: Seq<char>, j: int) -> Option<VideoView>
    decreases vs.len() - j,
{
    if j < 0 || j >= vs.len() {
        None
    } else if vs[j].id@ == k {
        Some(vs[j]@)
    } else {
        video_from(vs, k, j + 1)
    }
}

/// The video stored under key `k`, if any.
pub open spec fn video_entry(vs: Seq<Video>, k: Seq<char>) -> Option<VideoView> {
    video_from(vs, k, 0)
}

/// Is some video from index `j` on keyed by `k`?
pub open spec fn has_id_from(vs: Seq<Video>, k: Seq<char>, j: int) -> bool {
    exists|i: int| j <= i < vs.len() && (#[trigger] vs[i]).id@ == k
}

/// A keyed collection of videos; inserting under an existing id replaces
/// the stored video. Its mathematical content is a total map from id to
/// optional video.
pub struct VideoStore {
    videos: Vec<Video>,
}

impl View for VideoStore {
    type V = Map<Seq<char>, Option<VideoView>>;

    closed spec fn view(&self) -> Map<Seq<char>, Option<VideoView>> {
        Map::new(|k: Seq<char>| true, |k: Seq<char>| video_entry(self.videos@, k))
    }
}

proof fn lemma_video_from_no_match(vs: Seq<Video>, k: Seq<char>, j: int)
    requires
        0 <= j,
        !has_id_from(vs, k, j),
    ensures
        video_from(vs, k, j) is None,
    decreases vs.len() - j,
{
    if j < vs.len() {
        assert(vs[j].id@ != k);
        lemma_video_from_no_match(vs, k, j + 1);
    }
}

proof fn lemma_video_from_first(vs: Seq<Video>, k: Seq<char>, j: int, i: int)
    requires
        0 <= j <= i < vs.len(),
        vs[i].id@ == k,
        forall|j2: int| j <= j2 < i ==> (#[trigger] vs[j2]).id@ != k,
    ensures
        video_from(vs, k, j) == Some(vs[i]@),
    decreases i - j,
{
    if j < i {
        lemma_video_from_first(vs, k, j + 1, i);
    }
}

proof fn lemma_video_from_update_other(vs: Seq<Video>, i: int, v2: Video, k: Seq<char>, j: int)
    requires
        0 <= i < vs.len(),
        0 <= j,
        vs[i].id@ != k,
        v2.id@ != k,
    ensures
        video_from(vs.update(i, v2), k, j) == video_from(vs, k, j),
    decreases vs.len() - j,
{
    if j < vs.len() {
        lemma_video_from_update_other(vs, i, v2, k, j + 1);
    }
}

proof fn lemma_video_from_push(vs: Seq<Video>, v: Video, k: Seq<char>, j: int)
    requires
        0 <= j <= vs.len(),
    ensures
        video_from(vs.push(v), k, j) == if has_id_from(vs, k, j) {
            video_from(vs, k, j)
        } else if v.id@ == k {
            Some(v@)
        } else {
            None::<VideoView>
        },
    decreases vs.len() - j,
{
    let pushed = vs.push(v);
    if j == vs.len() {
        assert(pushed[j] == v);
        assert(!has_id_from(vs, k, j));
    } else {
        assert(pushed[j] == vs[j]);
        lemma_video_from_push(vs, v, k, j + 1);
        if vs[j].id@ == k {
            assert(has_id_from(vs, k, j));
        } else {
            assert(has_id_from(vs, k, j) == has_id_from(vs, k, j + 1));
        }
    }
}

/// Any stored video carries the key it is stored under.
proof fn lemma_video_from_id(vs: Seq<Video>, k: Seq<char>, j: int)
    requires
        0 <= j,
    ensures
        video_from(vs, k, j) matches Some(v) ==> v.id == k,
    decreases vs.len() - j,
{
    if 0 <= j < vs.len() {
        lemma_video_from_id(vs, k, j + 1);
    }
}

/// Finds the first video keyed by `k`.
fn find_video(vs: &Vec<Video>, k: &str) -> (r: Option<usize>)
    ensures
        (match r {
            Some(i) => i < vs@.len() && vs@[i as int].id@ == k@ && forall|j: int|
                0 <= j < i ==> (#[trigger] vs@[j]).id@ != k@,
            None => forall|j: int| 0 <= j < vs@.len() ==> (#[trigger] vs@[j]).id@ != k@,
        }),
{
    let n = vs.len();
    let mut i: usize = 0;
    while i < n
        invariant
            0 <= i <= n,
            n == vs@.len(),
            forall|j: int| 0 <= j < i ==> (#[trigger] vs@[j]).id@ != k@,
        decreases n - i,
    {
        if str_eq(vs[i].id.as_str(), k) {
            return Some(i);
        }
        i = i + 1;
    }
    None
}

impl VideoStore {
    /// Well-formedness: ids are pairwise distinct.
    pub closed spec fn wf(&self) -> bool {
        forall|i: int, j: int|
            0 <= i < j < self.videos@.len() ==> (#[trigger] self.videos@[i]).id@ != (
            #[trigger] self.videos@[j]).id@
    }

    /// An empty store: every id reads as absent.
    pub fn new() -> (s: Self)
        ensures
            s.wf(),
            forall|k: Seq<char>| s@[k] is None,
    {
        VideoStore { videos: Vec::new() }
    }

    /// Stores `video` under its own id, replacing any earlier video with
    /// that id. Nothing else changes.
    pub fn put(&mut self, video: Video)
        requires
            old(self).wf(),
        ensures
            final(self).wf(),
            final(self)@ == old(self)@.insert(video.id@, Some(video@)),
    {
        let ghost k = video.id@;
        let ghost vs0 = self.videos@;
        let ghost v = video@;
        match find_video(&self.videos, video.id.as_str()) {
            Some(i) => {
                self.videos.remove(i);
                self.videos.insert(i, video);
                proof {
                    let vs1 = self.videos@;
                    assert(vs1 =~= vs0.update(i as int, vs1[i as int]));
                    assert(vs1[i as int]@ == v);
                    lemma_video_from_first(vs1, k, 0, i as int);
                    assert forall|k2: Seq<char>| k2 != k implies video_entry(vs1, k2)
                        == video_entry(vs0, k2) by {
                        lemma_video_from_update_other(vs0, i as int, vs1[i as int], k2, 0);
                    }
                    assert(final(self)@ =~= old(self)@.insert(k, Some(v)));
                }
            },
            None => {
                self.videos.push(video);
                proof {
                    let vs1 = self.videos@;
                    assert(vs1 =~= vs0.push(vs1.last()));
                    assert(vs1.last()@ == v);
                    assert(vs1.last().id@ == k);
                    assert forall|k2: Seq<char>|
                        #![auto]
                        true implies video_entry(vs1, k2) == (if k2 == k {
                        Some(v)
                    } else {
                        video_entry(vs0, k2)
                    }) by {
                        lemma_video_from_push(vs0, vs1.last(), k2, 0);
                        if k2 == k {
                            assert(!has_id_from(vs0, k2, 0));
                        } else {
                            if !has_id_from(vs0, k2, 0) {
                                lemma_video_from_no_match(vs0, k2, 0);
                            }
                        }
                    }
                    assert(final(self)@ =~= old(self)@.insert(k, Some(v)));
                }
            },
        }
    }

    /// Reads a copy of the video under `id`, if any.
    pub fn get(&self, id: &str) -> (r: Option<Video>)
        requires
            self.wf(),
        ensures
            (match r {
                Some(v) => self@[id@] == Some(v@) && v.id@ == id@,
                None => self@[id@] is None,
            }),
    {
        match find_video(&self.videos, id) {
            Some(i) => {
                proof {
                    lemma_video_from_first(self.videos@, id@, 0, i as int);
                }
                Some(self.videos[i].clone())
            },
            None => {
                proof {
                    lemma_video_from_no_match(self.videos@, id@, 0);
                }
                None
            },
        }
    }

    /// Reads a copy of every stored video; each one reads back under its
    /// own id, and no id repeats.
    pub fn all(&self) -> (r: Vec<Video>)
        requires
            self.wf(),
        ensures
            forall|i: int|
                0 <= i < r@.len() ==> self@[(#[trigger] r@[i])@.id] == Some(r@[i]@),
            forall|i: int, j: int|
                0 <= i < j < r@.len() ==> (#[trigger] r@[i]).id@ != (#[trigger] r@[j]).id@,
    {
        let n = self.videos.len();
        let mut out: Vec<Video> = Vec::new();
        let mut i: usize = 0;
        while i < n
            invariant
                0 <= i <= n,
                n == self.videos@.len(),
                self.wf(),
                out@ =~= self.videos@.take(i as int),
            decreases n - i,
        {
            out.push(self.videos[i].clone());
            proof {
                assert(out@ =~= self.videos@.take(i + 1));
            }
            i = i + 1;
        }
        proof {
            assert(out@ =~= self.videos@);
            assert forall|i2: int| 0 <= i2 < out@.len() implies self@[(#[trigger] out@[i2])@.id]
                == Some(out@[i2]@) by {
                assert(out@[i2] == self.videos@[i2]);
                lemma_video_from_first(self.videos@, self.videos@[i2].id@, 0, i2);
            }
        }
        out
    }
}

/// The content of the message store after appending each message of
/// `batch`, in order.
pub open spec fn after_appends(
    m: Map<Seq<char>, Seq<MessageView>>,
    batch: Seq<MessageView>,
) -> Map<Seq<char>, Seq<MessageView>>
    decreases batch.len(),
{
    if batch.len() == 0 {
        m
    } else {
        after_appends(
            m.insert(batch[0].live_chat_id, m[batch[0].live_chat_id].push(batch[0])),
            batch.drop_first(),
        )
    }
}

/// The messages of `batch` keyed by `k`, in batch order.
pub open spec fn for_key(batch: Seq<MessageView>, k: Seq<char>) -> Seq<MessageView>
    decreases batch.len(),
{
    if batch.len() == 0 {
        Seq::empty()
    } else if batch[0].live_chat_id == k {
        seq![batch[0]] + for_key(batch.drop_first(), k)
    } else {
        for_key(batch.drop_first(), k)
    }
}

/// The message store's content is a total map: every key reads as some
/// (possibly empty) log.
pub proof fn lemma_store_total(s: &MessageStore)
    ensures
        forall|k: Seq<char>| s@.dom().contains(k),
{
}

/// Append/read atomicity in the store's linearized order: once a batch of
/// appends has completed, a read of key `k` sees exactly what it saw
/// before the batch followed by the batch's messages for `k`, whole and
/// in append order — never a partially applied append.
pub proof fn lemma_append_read_snapshot(
    m: Map<Seq<char>, Seq<MessageView>>,
    batch: Seq<MessageView>,
    k: Seq<char>,
)
    requires
        forall|k2: Seq<char>| m.dom().contains(k2),
    ensures
        after_appends(m, batch)[k] == m[k] + for_key(batch, k),
    decreases batch.len(),
{
    if batch.len() == 0 {
        assert(m[k] + Seq::<MessageView>::empty() =~= m[k]);
    } else {
        let k0 = batch[0].live_chat_id;
        let m2 = m.insert(k0, m[k0].push(batch[0]));
        assert(forall|k2: Seq<char>| m2.dom().contains(k2));
        lemma_append_read_snapshot(m2, batch.drop_first(), k);
        if k0 == k {
            assert(m2[k] == m[k].push(batch[0]));
            assert(m[k].push(batch[0]) + for_key(batch.drop_first(), k) =~= m[k] + (seq![
                batch[0],
            ] + for_key(batch.drop_first(), k)));
        } else {
            assert(m2[k] == m[k]);
        }
    }
}

/// Lock invariant for the shared message store: well-formedness.
pub struct ChatLockInv;

impl RwLockPredicate<MessageStore> for ChatLockInv {
    open spec fn inv(self, v: MessageStore) -> bool {
        v.wf()
    }
}

/// Lock invariant for the shared video store: well-formedness.
pub struct VideoLockInv;

impl RwLockPredicate<VideoStore> for VideoLockInv {
    open spec fn inv(self, v: VideoStore) -> bool {
        v.wf()
    }
}

/// Repository trait for data access abstraction. Readers may run in
/// parallel; writers are exclusive; a read that races a write observes
/// the store either wholly before or wholly after it.
pub trait Repository: Send + Sync {
    /// Get a video by ID; a returned video carries that id.
    fn get_video(&self, id: &str) -> (r: Option<Video>)
        ensures
            r matches Some(v) ==> v.id@ == id@,
    ;

    /// Get all videos; no id repeats among them.
    fn get_videos(&self) -> (r: Vec<Video>)
        ensures
            forall|i: int, j: int|
                0 <= i < j < r@.len() ==> (#[trigger] r@[i]).id@ != (#[trigger] r@[j]).id@,
    ;

    /// Get live chat messages for a specific live chat ID, in insertion
    /// order; every returned message carries that id.
    fn get_chat_messages(&self, live_chat_id: &str) -> (msgs: Vec<LiveChatMessage>)
        ensures
            forall|i: int|
                0 <= i < msgs@.len() ==> (#[trigger] msgs@[i])@.live_chat_id == live_chat_id@,
    ;

    /// Add a video to the repository.
    fn add_video(&self, video: Video);

    /// Add a chat message to the repository.
    fn add_chat_message(&self, message: LiveChatMessage);
}

/// In-memory implementation of the `Repository` trait: both stores live
/// behind verified readers-writer locks whose invariant is the stores'
/// well-formedness.
pub struct InMemoryRepository {
    videos: RwLock<VideoStore, VideoLockInv>,
    chat_messages: RwLock<MessageStore, ChatLockInv>,
}

/// The fixed instant that seeds the dummy data, as an RFC 3339 string.
pub open spec fn dummy_time() -> Seq<char> {
    "2023-01-01T00:00:00+00:00"@
}

/// The one video the repository starts with.
pub open spec fn dummy_video_view() -> VideoView {
    VideoView {
        id: "test-video-1"@,
        channel_id: "channel-1"@,
        title: "Mock Live Stream Video"@,
        description: "This is a mock video for testing the YouTube Data API"@,
        channel_title: "Mock Channel"@,
        published_at: dummy_time(),
        live_chat_id: Some("live-chat-id-1"@),
        actual_start_time: Some(dummy_time()),
        actual_end_time: None,
        scheduled_start_time: Some(dummy_time()),
        scheduled_end_time: None,
        concurrent_viewers: Some(42u64),
    }
}

/// The `i`-th seeded message of the main live chat.
pub open spec fn dummy_main_message(i: nat) -> MessageView {
    MessageView {
        id: "msg-id-"@ + crate::text::dec_chars(i),
        live_chat_id: "live-chat-id-1"@,
        author_channel_id: "channel-id-"@ + crate::text::dec_chars(i),
        author_display_name: "User "@ + crate::text::dec_chars(i),
        message_text: "Hello world "@ + crate::text::dec_chars(i),
        published_at: dummy_time(),
        is_verified: true,
    }
}

/// The `i`-th seeded message of the test live chat.
pub open spec fn dummy_test_message(i: nat) -> MessageView {
    MessageView {
        id: "test-msg-id-"@ + crate::text::dec_chars(i),
        live_chat_id: "test-chat-id"@,
        author_channel_id: "test-channel-id-"@ + crate::text::dec_chars(i),
        author_display_name: "Test User "@ + crate::text::dec_chars(i),
        message_text: "Test message "@ + crate::text::dec_chars(i),
        published_at: dummy_time(),
        is_verified: true,
    }
}

/// Populates empty stores with the initial dummy data: one video, five
/// messages in the main live chat and five in the test live chat.
fn populate_dummy_data(videos: &mut VideoStore, chats: &mut MessageStore)
    requires
        old(videos).wf(),
        old(chats).wf(),
        forall|k: Seq<char>| old(videos)@[k] is None,
        forall|k: Seq<char>| old(chats)@[k] == Seq::<MessageView>::empty(),
    ensures
        final(videos).wf(),
        final(chats).wf(),
        final(videos)@["test-video-1"@] == Some(dummy_video_view()),
        forall|k: Seq<char>| k != "test-video-1"@ ==> final(videos)@[k] is None,
        final(chats)@["live-chat-id-1"@] == Seq::new(5, |j: int| dummy_main_message(j as nat)),
        final(chats)@["test-chat-id"@] == Seq::new(5, |j: int| dummy_test_message(j as nat)),
        forall|k: Seq<char>|
            k != "live-chat-id-1"@ && k != "test-chat-id"@ ==> final(chats)@[k] == Seq::<
                MessageView,
            >::empty(),
{
    proof {
        reveal_strlit("live-chat-id-1");
        reveal_strlit("test-chat-id");
        assert("live-chat-id-1"@.len() == 14);
        assert("test-chat-id"@.len() == 12);
        assert("live-chat-id-1"@ != "test-chat-id"@);
    }
    let video = Video {
        id: String::from_str("test-video-1"),
        channel_id: String::from_str("channel-1"),
        title: String::from_str("Mock Live Stream Video"),
        description: String::from_str("This is a mock video for testing the YouTube Data API"),
        channel_title: String::from_str("Mock Channel"),
        published_at: String::from_str("2023-01-01T00:00:00+00:00"),
        live_chat_id: Some(String::from_str("live-chat-id-1")),
        actual_start_time: Some(String::from_str("2023-01-01T00:00:00+00:00")),
        actual_end_time: None,
        scheduled_start_time: Some(String::from_str("2023-01-01T00:00:00+00:00")),
        scheduled_end_time: None,
        concurrent_viewers: Some(42),
    };
    assert(video@ == dummy_video_view());
    videos.put(video);

    let mut i: usize = 0;
    while i < 5
        invariant
            0 <= i <= 5,
            chats.wf(),
            chats@["live-chat-id-1"@] =~= Seq::new(i as nat, |j: int| dummy_main_message(j as nat)),
            forall|k: Seq<char>|
                k != "live-chat-id-1"@ ==> chats@[k] == Seq::<MessageView>::empty(),
        decreases 5 - i,
    {
        let message = LiveChatMessage {
            id: prefixed_number("msg-id-", i),
            live_chat_id: String::from_str("live-chat-id-1"),
            author_channel_id: prefixed_number("channel-id-", i),
            author_display_name: prefixed_number("User ", i),
            message_text: prefixed_number("Hello world ", i),
            published_at: String::from_str("2023-01-01T00:00:00+00:00"),
            is_verified: true,
        };
        assert(message@ == dummy_main_message(i as nat));
        chats.append(message);
        proof {
            assert(chats@["live-chat-id-1"@] =~= Seq::new(
                (i + 1) as nat,
                |j: int| dummy_main_message(j as nat),
            ));
        }
        i = i + 1;
    }

    let mut i2: usize = 0;
    while i2 < 5
        invariant
            0 <= i2 <= 5,
            chats.wf(),
            chats@["live-chat-id-1"@] =~= Seq::new(5, |j: int| dummy_main_message(j as nat)),
            chats@["test-chat-id"@] =~= Seq::new(i2 as nat, |j: int| dummy_test_message(j as nat)),
            "live-chat-id-1"@ != "test-chat-id"@,
            forall|k: Seq<char>|
                k != "live-chat-id-1"@ && k != "test-chat-id"@ ==> chats@[k] == Seq::<
                    MessageView,
                >::empty(),
        decreases 5 - i2,
    {
        let message = LiveChatMessage {
            id: prefixed_number("test-msg-id-", i2),
            live_chat_id: String::from_str("test-chat-id"),
            author_channel_id: prefixed_number("test-channel-id-", i2),
            author_display_name: prefixed_number("Test User ", i2),
            message_text: prefixed_number("Test message ", i2),
            published_at: String::from_str("2023-01-01T00:00:00+00:00"),
            is_verified: true,
        };
        assert(message@ == dummy_test_message(i2 as nat));
        chats.append(message);
        proof {
            assert(chats@["test-chat-id"@] =~= Seq::new(
                (i2 + 1) as nat,
                |j: int| dummy_test_message(j as nat),
            ));
        }
        i2 = i2 + 1;
    }
}

impl InMemoryRepository {
    /// Both locks carry the well-formedness invariant of their store.
    pub closed spec fn wf(&self) -> bool {
        &&& self.videos.pred() == VideoLockInv
        &&& self.chat_messages.pred() == ChatLockInv
    }

    /// Create a new in-memory repository with initial dummy data.
    pub fn new() -> (r: Self)
        ensures
            r.wf(),
    {
        let mut videos = VideoStore::new();
        let mut chats = MessageStore::new();
        populate_dummy_data(&mut videos, &mut chats);
        InMemoryRepository {
            videos: RwLock::new(videos, Ghost(VideoLockInv)),
            chat_messages: RwLock::new(chats, Ghost(ChatLockInv)),
        }
    }
}

impl Default for InMemoryRepository {
    fn default() -> (r: Self)
        ensures
            r.wf(),
    {
        Self::new()
    }
}

impl Repository for InMemoryRepository {
    fn get_video(&self, id: &str) -> (r: Option<Video>) {
        let handle = self.videos.acquire_read();
        let store = handle.borrow();
        let r = store.get(id);
        handle.release_read();
        r
    }

    fn get_videos(&self) -> (r: Vec<Video>) {
        let handle = self.videos.acquire_read();
        let store = handle.borrow();
        let r = store.all();
        handle.release_read();
        r
    }

    fn get_chat_messages(&self, live_chat_id: &str) -> (msgs: Vec<LiveChatMessage>) {
        let handle = self.chat_messages.acquire_read();
        let store = handle.borrow();
        let msgs = store.read(live_chat_id);
        handle.release_read();
        msgs
    }

    fn add_video(&self, video: Video) {
        let (mut store, handle) = self.videos.acquire_write();
        store.put(video);
        handle.release_write(store);
    }

    fn add_chat_message(&self, message: LiveChatMessage) {
        let (mut store, handle) = self.chat_messages.acquire_write();
        store.append(message);
        handle.release_write(store);
    }
}

} // verus!
