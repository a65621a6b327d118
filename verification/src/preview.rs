//! The local preview and the source thumbnails: when a preview may run,
//! how the multipart JPEG stream from ffmpeg is cut into frames, and how
//! frames reach the UI as base64 text.
use crate::app_state::AppState;
use crate::text::{
    dec, dec_u64, owned_str, parse_u64, parse_u64_in, push_arg, push_str, to_chars, trim,
    trim_bounds, trim_bounds_in,
};
use crate::types::CaptureSource;
use base64::Engine;
use vstd::prelude::*;

verus! {

/// "stream:preview" payload: a frame, or why the preview stopped.
#[derive(Debug, Clone)]
pub enum PreviewEvent {
    Frame { frame: String },
    Error { error: String },
}

/// The character of the standard base64 alphabet for a six-bit value.
pub open spec fn base64_digit(v: int) -> char {
    if v < 26 {
        (65 + v) as char
    } else if v < 52 {
        (71 + v) as char
    } else if v < 62 {
        (v - 4) as char
    } else if v == 62 {
        '+'
    } else {
        '/'
    }
}

/// The standard base64 encoding of `bytes` (RFC 4648): each group of three
/// bytes gives four characters, and a last group of one or two bytes is
/// padded with `=`.
pub open spec fn base64_standard(bytes: Seq<u8>) -> Seq<char>
    decreases bytes.len(),
{
    if bytes.len() == 0 {
        seq![]
    } else if bytes.len() == 1 {
        let b0 = bytes[0] as int;
        seq![base64_digit(b0 / 4), base64_digit((b0 % 4) * 16), '=', '=']
    } else if bytes.len() == 2 {
        let b0 = bytes[0] as int;
        let b1 = bytes[1] as int;
        seq![
            base64_digit(b0 / 4),
            base64_digit((b0 % 4) * 16 + b1 / 16),
            base64_digit((b1 % 16) * 4),
            '=',
        ]
    } else {
        let b0 = bytes[0] as int;
        let b1 = bytes[1] as int;
        let b2 = bytes[2] as int;
        seq![
            base64_digit(b0 / 4),
            base64_digit((b0 % 4) * 16 + b1 / 16),
            base64_digit((b1 % 16) * 4 + b2 / 64),
            base64_digit(b2 % 64),
        ] + base64_standard(bytes.subrange(3, bytes.len() as int))
    }
}

/// `base64::engine::general_purpose::STANDARD.encode`: the standard
/// alphabet, with padding.
#[verifier::external_body]
fn base64_encode(bytes: &[u8]) -> (r: String)
    ensures
        r@ == base64_standard(bytes@),
{
    base64::engine::general_purpose::STANDARD.encode(bytes)
}

/// A JPEG as the UI receives it: base64 text.
pub fn encode_jpeg(jpeg: &[u8]) -> (r: String)
    ensures
        r@ == base64_standard(jpeg@),
{
    base64_encode(jpeg)
}

/// The event for a decoded preview frame.
pub fn frame_event(jpeg: &[u8]) -> (r: PreviewEvent)
    ensures
        r matches PreviewEvent::Frame { frame } && frame@ == base64_standard(jpeg@),
{
    PreviewEvent::Frame { frame: encode_jpeg(jpeg) }
}

/// Whether a preview starts: only while setting up the stream, not when
/// one already runs, and never next to the live stream.
pub fn preview_gate(app_state: AppState, preview_running: bool, stream_running: bool) -> (r: Result<
    bool,
    String,
>)
    ensures
        app_state != AppState::StreamSetup ==> r == Ok::<bool, String>(false),
        app_state == AppState::StreamSetup && preview_running ==> r == Ok::<bool, String>(false),
        app_state == AppState::StreamSetup && !preview_running && stream_running ==> r is Err
            && r->Err_0@ == "cannot preview while the stream is live"@,
        app_state == AppState::StreamSetup && !preview_running && !stream_running ==> r == Ok::<
            bool,
            String,
        >(true),
{
    if app_state != AppState::StreamSetup {
        return Ok(false);
    }
    if preview_running {
        return Ok(false);
    }
    if stream_running {
        return Err(owned_str("cannot preview while the stream is live"));
    }
    Ok(true)
}

/// A preview task clears the session only if the session is still its own.
pub fn owns_session(current: Option<u64>, id: u64) -> (r: bool)
    ensures
        r == (current == Some(id)),
{
    match current {
        Some(c) => c == id,
        None => false,
    }
}

/// Largest preview frame accepted.
pub const MAX_FRAME_BYTES: usize = 8_388_608;

/// The header name, lower case.
pub open spec fn content_length_name() -> Seq<char> {
    "content-length:"@
}

/// `c` equals the lowercase ASCII character `p` once lowercased.
pub open spec fn same_ignoring_case(c: char, p: char) -> bool {
    c == p || ('a' <= p && p <= 'z' && (c as u32) + 32 == (p as u32))
}

/// The value of a `Content-Length` header line (any case, surrounding
/// whitespace trimmed), or `None` for another line.
pub open spec fn content_length_value(line: Seq<char>) -> Option<Seq<char>> {
    let t = trim(line);
    let name = content_length_name();
    if t.len() >= name.len() && forall|i: int|
        0 <= i < name.len() ==> same_ignoring_case(#[trigger] t[i], name[i]) {
        Some(trim(t.subrange(name.len() as int, t.len() as int)))
    } else {
        None
    }
}

/// `str::parse::<usize>()`.
pub open spec fn parse_usize(s: Seq<char>) -> Option<usize> {
    match parse_u64(s) {
        Some(v) => if v <= usize::MAX {
            Some(v as usize)
        } else {
            None
        },
        None => None,
    }
}

/// What the frame reader does after a header line.
#[derive(Debug, Clone, Copy, PartialEq, Eq, Structural)]
pub enum LineStep {
    /// Read the next line.
    Continue,
    /// The headers ended: read a body of this many bytes.
    Body { len: usize },
    /// The stream is unusable: stop reading.
    Stop,
}

/// The header state of the multipart reader: the announced length.
#[derive(Debug, Clone, Copy, PartialEq, Eq, Structural)]
pub struct MpjpegHeaders {
    pub content_length: Option<usize>,
}

/// After a line: a `Content-Length` line records its value (forgotten
/// if unreadable); an empty line ends the headers of a part whose length
/// is known, and a length of zero or above the cap stops the reader;
/// every other line is skipped.
pub open spec fn spec_on_line(h: MpjpegHeaders, line: Seq<char>) -> (MpjpegHeaders, LineStep) {
    match content_length_value(line) {
        Some(v) => (MpjpegHeaders { content_length: parse_usize(v) }, LineStep::Continue),
        None => if trim(line).len() == 0 {
            match h.content_length {
                Some(len) => (
                    MpjpegHeaders { content_length: None },
                    if len == 0 || len > MAX_FRAME_BYTES {
                        LineStep::Stop
                    } else {
                        LineStep::Body { len }
                    },
                ),
                None => (h, LineStep::Continue),
            }
        } else {
            (h, LineStep::Continue)
        },
    }
}

fn header_at(v: &[char], b: usize, e: usize) -> (r: bool)
    requires
        b <= e <= v@.len(),
    ensures
        r == (e - b >= content_length_name().len() && forall|i: int|
            0 <= i < content_length_name().len() ==> same_ignoring_case(
                #[trigger] v@.subrange(b as int, e as int)[i],
                content_length_name()[i],
            )),
{
    let name = "content-length:";
    proof {
        reveal_strlit("content-length:");
    }
    let n = to_chars(name);
    if e - b < n.len() {
        return false;
    }
    let ghost t = v@.subrange(b as int, e as int);
    let mut i: usize = 0;
    while i < n.len()
        invariant
            i <= n@.len() == content_length_name().len(),
            n@ == content_length_name(),
            b + n@.len() <= e <= v@.len(),
            t == v@.subrange(b as int, e as int),
            forall|j: int| 0 <= j < i ==> same_ignoring_case(#[trigger] t[j], n@[j]),
        decreases n@.len() - i,
    {
        let c = v[b + i];
        let p = n[i];
        assert(t[i as int] == c);
        let ok = c == p || ('a' <= p && p <= 'z' && (c as u32) == (p as u32) - 32);
        if !ok {
            return false;
        }
        i = i + 1;
    }
    true
}

impl MpjpegHeaders {
    /// No length announced yet.
    pub fn new() -> (r: Self)
        ensures
            r.content_length is None,
    {
        MpjpegHeaders { content_length: None }
    }

    /// Takes one header line of the multipart stream.
    pub fn on_line(&mut self, line: &str) -> (r: LineStep)
        ensures
            (*final(self), r) == spec_on_line(*old(self), line@),
    {
        let v = to_chars(line);
        let (b, e) = trim_bounds(v.as_slice());
        proof {
            reveal_strlit("content-length:");
        }
        if header_at(v.as_slice(), b, e) {
            let (vb, ve) = trim_bounds_in(v.as_slice(), b + 15, e);
            proof {
                let t = v@.subrange(b as int, e as int);
                assert(t.subrange(15, t.len() as int) =~= v@.subrange(b + 15, e as int));
            }
            let parsed = parse_u64_in(v.as_slice(), vb, ve);
            self.content_length = match parsed {
                Some(x) => if x <= usize::MAX as u64 {
                    Some(x as usize)
                } else {
                    None
                },
                None => None,
            };
            return LineStep::Continue;
        }
        if b == e {
            match self.content_length {
                Some(len) => {
                    self.content_length = None;
                    if len == 0 || len > MAX_FRAME_BYTES {
                        LineStep::Stop
                    } else {
                        LineStep::Body { len }
                    }
                },
                None => LineStep::Continue,
            }
        } else {
            LineStep::Continue
        }
    }
}

/// A frame body is read only once its length is known, and it is never
/// empty nor larger than the cap.
pub proof fn law_frame_sizes_bounded(h: MpjpegHeaders, line: Seq<char>)
    ensures
        spec_on_line(h, line).1 matches LineStep::Body { len } ==> 0 < len <= MAX_FRAME_BYTES
            && h.content_length == Some(len) && spec_on_line(h, line).0.content_length is None,
{
}

/// Whether the preview's last frame can serve as the thumbnail of
/// monitor `index`: the preview is showing that monitor.
pub fn reuse_preview_thumb(source: &CaptureSource, index: u32) -> (r: bool)
    ensures
        r == (source matches CaptureSource::Monitor { index: i } && i == index),
{
    match source {
        CaptureSource::Monitor { index: i } => *i == index,
        CaptureSource::Window { .. } => false,
    }
}

/// The ffmpeg arguments that grab one small JPEG of monitor `index`.
pub open spec fn spec_thumb_args(index: u32) -> Seq<Seq<char>> {
    seq![
        "-hide_banner"@,
        "-loglevel"@,
        "error"@,
        "-f"@,
        "lavfi"@,
        "-i"@,
        "ddagrab=output_idx="@ + dec(index as nat) + ":framerate=5"@,
        "-frames:v"@,
        "1"@,
        "-vf"@,
        "hwdownload,format=bgra,scale=320:-2:flags=bilinear,format=yuvj420p"@,
        "-q:v"@,
        "8"@,
        "-f"@,
        "mjpeg"@,
        "pipe:1"@,
    ]
}

/// Builds the monitor thumbnail command line.
pub fn thumb_args(index: u32) -> (r: Vec<String>)
    ensures
        crate::text::views(r@) == spec_thumb_args(index),
{
    let mut a: Vec<String> = Vec::new();
    push_arg(&mut a, "-hide_banner");
    push_arg(&mut a, "-loglevel");
    push_arg(&mut a, "error");
    push_arg(&mut a, "-f");
    push_arg(&mut a, "lavfi");
    push_arg(&mut a, "-i");
    let mut g = owned_str("ddagrab=output_idx=");
    push_str(&mut g, dec_u64(index as u64).as_str());
    push_str(&mut g, ":framerate=5");
    crate::text::push_string(&mut a, g);
    push_arg(&mut a, "-frames:v");
    push_arg(&mut a, "1");
    push_arg(&mut a, "-vf");
    push_arg(&mut a, "hwdownload,format=bgra,scale=320:-2:flags=bilinear,format=yuvj420p");
    push_arg(&mut a, "-q:v");
    push_arg(&mut a, "8");
    push_arg(&mut a, "-f");
    push_arg(&mut a, "mjpeg");
    push_arg(&mut a, "pipe:1");
    assert(crate::text::views(a@) =~= spec_thumb_args(index));
    a
}

/// The thumbnail reply: the JPEG in base64 when ffmpeg delivered one in
/// time, else the failure message.
pub fn monitor_thumb_result(read_ok: bool, jpeg: &[u8]) -> (r: Result<String, String>)
    ensures
        read_ok && jpeg@.len() > 0 ==> r is Ok && r->Ok_0@ == base64_standard(jpeg@),
        !(read_ok && jpeg@.len() > 0) ==> r is Err && r->Err_0@
            == "monitor thumbnail capture failed"@,
{
    if read_ok && jpeg.len() > 0 {
        Ok(encode_jpeg(jpeg))
    } else {
        Err(owned_str("monitor thumbnail capture failed"))
    }
}

} // verus!
