//! Replay upload: the status reported to the UI, and the resumable
//! upload protocol (chunk ranges, the server's progress header, retries
//! with backoff, and the final video id).
use crate::text::{dec, dec_u64, owned_str, parse_u64, parse_u64_in, push_str, to_chars};
use crate::ws::UploadUnavailableReason;
use std::sync::atomic::AtomicBool;
use std::sync::Arc;
use vstd::prelude::*;

verus! {

/// Bytes per chunk (a multiple of 256 KiB, as the protocol asks).
pub const CHUNK_SIZE: u64 = 8_388_608;

/// Failed chunks in a row before the upload gives up.
pub const MAX_RETRIES: u32 = 5;

/// A running upload; the flag asks it to stop.
pub struct UploadSession {
    pub cancel: Arc<AtomicBool>,
}

/// Upload progress phases shown in the UI.
#[derive(Debug, Clone, Copy, PartialEq, Eq, Structural)]
pub enum UploadPhase {
    Preparing,
    Uploading,
    Processing,
    Done,
    Failed,
    QuotaExhausted,
    Abandoned,
}

/// "upload:status" payload.
#[derive(Debug, Clone)]
pub struct UploadStatusPayload {
    pub state: UploadPhase,
    pub uploaded_bytes: u64,
    pub total_bytes: u64,
    pub message: Option<String>,
}

/// The status shown when the server could not open an upload session.
pub fn unavailable_status(reason: UploadUnavailableReason) -> (r: UploadStatusPayload)
    ensures
        r.uploaded_bytes == 0,
        r.total_bytes == 0,
        r.message is Some,
        reason == UploadUnavailableReason::QuotaExhausted ==> r.state == UploadPhase::QuotaExhausted
            && r.message->0@ == "quota_exhausted"@,
        reason == UploadUnavailableReason::Error ==> r.state == UploadPhase::Failed
            && r.message->0@ == "error"@,
{
    let (phase, msg) = match reason {
        UploadUnavailableReason::QuotaExhausted => (UploadPhase::QuotaExhausted, "quota_exhausted"),
        UploadUnavailableReason::Error => (UploadPhase::Failed, "error"),
    };
    UploadStatusPayload {
        state: phase,
        uploaded_bytes: 0,
        total_bytes: 0,
        message: Some(owned_str(msg)),
    }
}

/// The status shown when an upload ends in error: abandoned when the user
/// cancelled it (the pending record is then cleared), failed otherwise.
pub fn failure_status(cancelled: bool, error: String) -> (r: (UploadStatusPayload, bool))
    ensures
        r.0.uploaded_bytes == 0,
        r.0.total_bytes == 0,
        r.1 == cancelled,
        cancelled ==> r.0.state == UploadPhase::Abandoned && r.0.message is None,
        !cancelled ==> r.0.state == UploadPhase::Failed && r.0.message == Some(error),
{
    if cancelled {
        (
            UploadStatusPayload {
                state: UploadPhase::Abandoned,
                uploaded_bytes: 0,
                total_bytes: 0,
                message: None,
            },
            true,
        )
    } else {
        (
            UploadStatusPayload {
                state: UploadPhase::Failed,
                uploaded_bytes: 0,
                total_bytes: 0,
                message: Some(error),
            },
            false,
        )
    }
}

/// `Content-Range` of a chunk.
pub open spec fn spec_content_range(offset: nat, end: nat, total: nat) -> Seq<char> {
    "bytes "@ + dec(offset) + "-"@ + dec(end) + "/"@ + dec(total)
}

/// Builds the `Content-Range` header of a chunk.
pub fn content_range(offset: u64, end: u64, total: u64) -> (r: String)
    ensures
        r@ == spec_content_range(offset as nat, end as nat, total as nat),
{
    let mut r = owned_str("bytes ");
    push_str(&mut r, dec_u64(offset).as_str());
    push_str(&mut r, "-");
    push_str(&mut r, dec_u64(end).as_str());
    push_str(&mut r, "/");
    push_str(&mut r, dec_u64(total).as_str());
    r
}

/// `Content-Range` of the empty request that asks how far the server got.
pub fn probe_range(total: u64) -> (r: String)
    ensures
        r@ == "bytes */"@ + dec(total as nat),
{
    let mut r = owned_str("bytes */");
    push_str(&mut r, dec_u64(total).as_str());
    r
}

/// Position of the last `c` in `s`.
pub open spec fn last_index_of(s: Seq<char>, c: char) -> Option<nat>
    decreases s.len(),
{
    if s.len() == 0 {
        None
    } else if s.last() == c {
        Some((s.len() - 1) as nat)
    } else {
        last_index_of(s.drop_last(), c)
    }
}

/// What follows the last `-` (all of `s` when it has none), as
/// `rsplit('-').next()` gives it.
pub open spec fn after_last_dash(s: Seq<char>) -> Seq<char> {
    match last_index_of(s, '-') {
        Some(i) => s.subrange(i + 1 as int, s.len() as int),
        None => s,
    }
}

/// The last byte the server holds, from its `Range` header
/// (`bytes=0-N`).
pub open spec fn range_last(h: Seq<char>) -> Option<u64> {
    parse_u64(after_last_dash(h))
}

proof fn lemma_last_index(s: Seq<char>, c: char, i: int)
    requires
        -1 <= i < s.len(),
        forall|j: int| i < j < s.len() ==> s[j] != c,
    ensures
        i >= 0 && s[i] == c ==> last_index_of(s, c) == Some(i as nat),
        i == -1 ==> last_index_of(s, c) is None,
    decreases s.len(),
{
    if s.len() > 0 && i < s.len() - 1 {
        lemma_last_index(s.drop_last(), c, i);
    }
}

/// Reads the last byte from a `Range` header.
pub fn parse_range_last(h: &str) -> (r: Option<u64>)
    ensures
        r == range_last(h@),
{
    let v = to_chars(h);
    let n = v.len();
    let mut i: usize = n;
    while i > 0
        invariant
            i <= n == v@.len(),
            v@ == h@,
            forall|j: int| i <= j < n ==> v@[j] != '-',
        decreases i,
    {
        if v[i - 1] == '-' {
            proof {
                lemma_last_index(v@, '-', i - 1);
            }
            return parse_u64_in(v.as_slice(), i, n);
        }
        i = i - 1;
    }
    proof {
        lemma_last_index(v@, '-', -1);
        assert(v@.subrange(0, n as int) =~= v@);
    }
    parse_u64_in(v.as_slice(), 0, n)
}

/// A `Range` header whose last byte can be followed by another.
pub open spec fn range_fits(h: Option<Seq<char>>) -> bool {
    match h {
        Some(t) => range_last(t) != Some(u64::MAX),
        None => true,
    }
}

/// Where to resume: after the server's last byte, or `fallback` when the
/// header is missing or unreadable.
pub open spec fn spec_next_offset(h: Option<Seq<char>>, fallback: u64) -> u64 {
    match h {
        Some(t) => match range_last(t) {
            Some(last) => (last + 1) as u64,
            None => fallback,
        },
        None => fallback,
    }
}

/// The offset to resume from after a "308 Resume Incomplete".
pub fn next_offset(h: Option<&str>, fallback: u64) -> (r: u64)
    requires
        range_fits(crate::text::opt_str(h)),
    ensures
        r == spec_next_offset(crate::text::opt_str(h), fallback),
{
    match h {
        Some(t) => match parse_range_last(t) {
            Some(last) => last + 1,
            None => fallback,
        },
        None => fallback,
    }
}

/// Seconds to wait before the `attempt`-th resync: 2^min(attempt, 5).
pub open spec fn backoff_secs(attempt: u32) -> u64 {
    if attempt == 0 {
        1
    } else if attempt == 1 {
        2
    } else if attempt == 2 {
        4
    } else if attempt == 3 {
        8
    } else if attempt == 4 {
        16
    } else {
        32
    }
}

/// The wait before resyncing after a failed chunk.
pub fn resync_delay_secs(attempt: u32) -> (r: u64)
    ensures
        r == backoff_secs(attempt),
{
    let e = if attempt < 5 {
        attempt
    } else {
        5
    };
    let mut r: u64 = 1;
    let mut k: u32 = 0;
    while k < e
        invariant
            k <= e <= 5,
            e == if attempt < 5 {
                attempt
            } else {
                5
            },
            r == backoff_secs(k),
        decreases e - k,
    {
        r = r * 2;
        k = k + 1;
    }
    r
}

/// A server reply to a chunk or to a probe.
pub enum Reply {
    /// An HTTP response: its status code, the status as text (code and
    /// reason), its `Range` header, and its body (or, when the body could
    /// not be read, the error as text).
    Response {
        status: u16,
        status_text: String,
        range: Option<String>,
        body: Result<String, String>,
    },
    /// The request failed; the error as text.
    Network { error: String },
}

/// The `Range` header of a reply, if it is a response with one.
pub open spec fn reply_range(r: Reply) -> Option<Seq<char>> {
    match r {
        Reply::Response { range, .. } => match range {
            Some(t) => Some(t@),
            None => None,
        },
        Reply::Network { .. } => None,
    }
}

/// A 2xx status.
pub open spec fn is_success(status: u16) -> bool {
    200 <= status <= 299
}

/// What follows a chunk's reply.
pub enum ChunkStep {
    /// Send the next chunk; `uploaded` bytes are now on the server.
    Next { uploaded: u64 },
    /// The upload is complete: the video id, or why it cannot be read.
    Finished { video_id: Result<String, String> },
    /// Wait this long, then ask the server how far it got.
    Resync { after_secs: u64 },
    /// Give up with this message.
    Fail { message: String },
}

/// The chunk loop's position.
#[derive(Debug, Clone, Copy, PartialEq, Eq, Structural)]
pub struct ChunkUpload {
    pub total: u64,
    pub offset: u64,
    /// Failed replies in a row.
    pub retries: u32,
}

/// Length of the chunk at `offset`.
pub open spec fn chunk_len(u: ChunkUpload) -> u64 {
    if CHUNK_SIZE <= u.total - u.offset {
        CHUNK_SIZE
    } else {
        (u.total - u.offset) as u64
    }
}

/// The chunk loop can send its next chunk.
pub open spec fn sendable(u: ChunkUpload) -> bool {
    0 < u.total && u.offset <= u.total && u.offset + chunk_len(u) >= 1
}

/// Names what `serde_json` reads as the string field `key` of the JSON
/// text `body`: `None` when the text is not JSON, `Some(None)` when it
/// has no such string field.
pub uninterp spec fn json_str_field(body: Seq<char>, key: Seq<char>) -> Option<Option<Seq<char>>>;

/// Parses `body` with `serde_json::from_str` into a `serde_json::Value`
/// and reads `key` with `Value::get` and `Value::as_str`.
#[verifier::external_body]
fn json_field(body: &str, key: &str) -> (r: Option<Option<String>>)
    ensures
        match r {
            None => json_str_field(body@, key@) is None,
            Some(None) => json_str_field(body@, key@) == Some(None::<Seq<char>>),
            Some(Some(s)) => json_str_field(body@, key@) == Some(Some(s@)),
        },
{
    match serde_json::from_str::<serde_json::Value>(body) {
        Ok(v) => Some(v.get(key).and_then(|x| x.as_str()).map(String::from)),
        Err(_) => None,
    }
}

/// Message of a body that is not JSON (the HTTP client's decode error).
pub const DECODE_ERROR: &'static str = "error decoding response body";

/// The video id a finished upload's response gives, or why it gives none.
pub open spec fn spec_video_id(f: Option<Option<Seq<char>>>) -> Result<Seq<char>, Seq<char>> {
    match f {
        None => Err("bad final response: "@ + DECODE_ERROR@),
        Some(None) => Err("no video id in final response"@),
        Some(Some(id)) => Ok(id),
    }
}

/// Reads the video id from what the JSON reader found.
pub fn video_id_from_field(f: Option<Option<String>>) -> (r: Result<String, String>)
    ensures
        match (r, spec_video_id(
            match f {
                None => None,
                Some(None) => Some(None),
                Some(Some(s)) => Some(Some(s@)),
            },
        )) {
            (Ok(a), Ok(b)) => a@ == b,
            (Err(a), Err(b)) => a@ == b,
            _ => false,
        },
{
    match f {
        None => {
            let mut m = owned_str("bad final response: ");
            push_str(&mut m, DECODE_ERROR);
            Err(m)
        },
        Some(None) => Err(owned_str("no video id in final response")),
        Some(Some(id)) => Ok(id),
    }
}

/// Reads the video id from a finished upload's response body.
pub fn video_id(body: &str) -> (r: Result<String, String>)
    ensures
        match (r, spec_video_id(json_str_field(body@, "id"@))) {
            (Ok(a), Ok(b)) => a@ == b,
            (Err(a), Err(b)) => a@ == b,
            _ => false,
        },
{
    video_id_from_field(json_field(body, "id"))
}

/// The video id a finished upload's response gives: from its body, or,
/// when the body could not be read, the read error.
pub open spec fn spec_body_video_id(body: Result<String, String>) -> Result<Seq<char>, Seq<char>> {
    match body {
        Ok(b) => spec_video_id(json_str_field(b@, "id"@)),
        Err(e) => Err("bad final response: "@ + e@),
    }
}

/// Reads the video id from a finished upload's response.
pub fn body_video_id(body: &Result<String, String>) -> (r: Result<String, String>)
    ensures
        match (r, spec_body_video_id(*body)) {
            (Ok(a), Ok(b)) => a@ == b,
            (Err(a), Err(b)) => a@ == b,
            _ => false,
        },
{
    match body {
        Ok(b) => video_id(b.as_str()),
        Err(e) => {
            let mut m = owned_str("bad final response: ");
            push_str(&mut m, e.as_str());
            Err(m)
        },
    }
}

/// `prefix`, the text, and a closing parenthesis.
fn parenthesised(prefix: &str, text: &str) -> (r: String)
    ensures
        r@ == prefix@ + text@ + ")"@,
{
    let mut m = owned_str(prefix);
    push_str(&mut m, text);
    push_str(&mut m, ")");
    m
}

impl ChunkUpload {
    /// The start of an upload of `total` bytes.
    pub fn new(total: u64) -> (r: Self)
        ensures
            r == (ChunkUpload { total, offset: 0, retries: 0 }),
    {
        ChunkUpload { total, offset: 0, retries: 0 }
    }

    /// The next chunk: its length and its last byte.
    pub fn chunk(&self) -> (r: (u64, u64))
        requires
            sendable(*self),
        ensures
            r.0 == chunk_len(*self),
            r.1 == self.offset + r.0 - 1,
    {
        let rest = self.total - self.offset;
        let len = if CHUNK_SIZE <= rest {
            CHUNK_SIZE
        } else {
            rest
        };
        (len, self.offset + len - 1)
    }

    /// Handles the reply to the chunk just sent: a 308 moves the offset to
    /// what the server holds (or past the chunk) and resets the retries; a
    /// 2xx finishes; 404 and 410 mean the session is gone; anything else
    /// is retried after a resync, at most `MAX_RETRIES` times in a row.
    pub fn on_chunk_reply(&mut self, reply: Reply) -> (r: ChunkStep)
        requires
            sendable(*old(self)),
            old(self).retries <= MAX_RETRIES,
            range_fits(reply_range(reply)),
        ensures
            final(self).total == old(self).total,
            match reply {
                Reply::Response { status, status_text, range: _, body } => if status == 308 {
                    &&& final(self).offset == spec_next_offset(
                        reply_range(reply),
                        (old(self).offset + chunk_len(*old(self))) as u64,
                    )
                    &&& final(self).retries == 0
                    &&& r matches ChunkStep::Next { uploaded } && uploaded == final(self).offset
                } else if is_success(status) {
                    &&& *final(self) == *old(self)
                    &&& r matches ChunkStep::Finished { video_id } && match (
                        video_id,
                        spec_body_video_id(body),
                    ) {
                        (Ok(a), Ok(b)) => a@ == b,
                        (Err(a), Err(b)) => a@ == b,
                        _ => false,
                    }
                } else if status == 404 || status == 410 {
                    &&& *final(self) == *old(self)
                    &&& r matches ChunkStep::Fail { message } && message@
                        == "upload session expired ("@ + status_text@ + ")"@
                } else {
                    &&& final(self).offset == old(self).offset
                    &&& final(self).retries == old(self).retries + 1
                    &&& if final(self).retries > MAX_RETRIES {
                        r matches ChunkStep::Fail { message } && message@ == "upload failed ("@
                            + status_text@ + ")"@
                    } else {
                        r == (ChunkStep::Resync { after_secs: backoff_secs(final(self).retries) })
                    }
                },
                Reply::Network { error } => {
                    &&& final(self).offset == old(self).offset
                    &&& final(self).retries == old(self).retries + 1
                    &&& if final(self).retries > MAX_RETRIES {
                        r matches ChunkStep::Fail { message } && message@ == "network error: "@
                            + error@
                    } else {
                        r == (ChunkStep::Resync { after_secs: backoff_secs(final(self).retries) })
                    }
                },
            },
    {
        let (len, end) = self.chunk();
        match reply {
            Reply::Response { status, status_text, range, body } => {
                if status == 308 {
                    let next = match &range {
                        Some(t) => next_offset(Some(t.as_str()), end + 1),
                        None => next_offset(None, end + 1),
                    };
                    self.offset = next;
                    self.retries = 0;
                    ChunkStep::Next { uploaded: next }
                } else if 200 <= status && status <= 299 {
                    ChunkStep::Finished { video_id: body_video_id(&body) }
                } else if status == 404 || status == 410 {
                    ChunkStep::Fail {
                        message: parenthesised("upload session expired (", status_text.as_str()),
                    }
                } else {
                    self.retries = self.retries + 1;
                    if self.retries > MAX_RETRIES {
                        ChunkStep::Fail {
                            message: parenthesised("upload failed (", status_text.as_str()),
                        }
                    } else {
                        ChunkStep::Resync { after_secs: resync_delay_secs(self.retries) }
                    }
                }
            },
            Reply::Network { error } => {
                self.retries = self.retries + 1;
                if self.retries > MAX_RETRIES {
                    let mut m = owned_str("network error: ");
                    push_str(&mut m, error.as_str());
                    ChunkStep::Fail { message: m }
                } else {
                    ChunkStep::Resync { after_secs: resync_delay_secs(self.retries) }
                }
            },
        }
    }

    /// Handles the reply to a resync probe: a 308 moves the offset to what
    /// the server holds (from the start when it says nothing); a 2xx whose
    /// body has a video id means the server already has the whole file;
    /// anything else leaves the offset as it was.
    pub fn on_probe_reply(&mut self, reply: Reply) -> (r: Option<String>)
        requires
            range_fits(reply_range(reply)),
        ensures
            final(self).total == old(self).total,
            final(self).retries == old(self).retries,
            match reply {
                Reply::Response { status, body, .. } => if status == 308 {
                    final(self).offset == spec_next_offset(reply_range(reply), 0) && r is None
                } else if is_success(status) {
                    final(self).offset == old(self).offset && match spec_body_video_id(body) {
                        Ok(id) => r is Some && r->0@ == id,
                        Err(_) => r is None,
                    }
                } else {
                    final(self).offset == old(self).offset && r is None
                },
                Reply::Network { .. } => final(self).offset == old(self).offset && r is None,
            },
    {
        match reply {
            Reply::Response { status, status_text: _, range, body } => {
                if status == 308 {
                    self.offset = match &range {
                        Some(t) => next_offset(Some(t.as_str()), 0),
                        None => next_offset(None, 0),
                    };
                    None
                } else if 200 <= status && status <= 299 {
                    match body_video_id(&body) {
                        Ok(id) => Some(id),
                        Err(_) => None,
                    }
                } else {
                    None
                }
            },
            Reply::Network { .. } => None,
        }
    }
}

/// Every chunk the loop sends lies inside the file, and a 308 that says
/// nothing moves the offset past the chunk just sent.
pub proof fn law_chunks_stay_in_file(u: ChunkUpload)
    requires
        sendable(u),
    ensures
        u.offset + chunk_len(u) <= u.total,
        chunk_len(u) <= CHUNK_SIZE,
        u.offset < u.total ==> chunk_len(u) > 0 && spec_next_offset(
            None,
            (u.offset + chunk_len(u)) as u64,
        ) > u.offset,
{
}

/// The resync wait doubles from two seconds and stops growing at the
/// fifth attempt.
pub proof fn law_backoff_doubles(attempt: u32)
    ensures
        1 <= backoff_secs(attempt) <= 32,
        attempt < 5 ==> backoff_secs((attempt + 1) as u32) == 2 * backoff_secs(attempt),
        attempt >= 5 ==> backoff_secs(attempt) == 32,
{
}

} // verus!
