//! ffmpeg command lines: the live WHIP stream (with its optional MP4
//! replay and local preview outputs), the setup preview, and the encoder
//! option sets.
use crate::text::{
    concat2, dec, dec_u64, extend_args, owned_str, push_arg, push_str, push_string, views,
};
use crate::types::{encoder_name, AudioSource, CaptureSource, Encoder, StreamSettings};
use vstd::prelude::*;

verus! {

/// Audio resampling applied to every live and replay output.
pub const AUDIO_FILTER: &'static str = "aresample=async=1:first_pts=0";

/// Frame rate of the setup preview and of the debug preview output.
pub const PREVIEW_FPS: u32 = 15;

/// Scaling of the preview picture.
pub const PREVIEW_TAIL: &'static str = "scale=640:-2:flags=bilinear,format=yuvj420p";

/// Length in seconds of each replay segment.
pub const SEGMENT_SECS: u32 = 5;

/// Key-frame expression for AMF live output: an IDR every two seconds,
/// the same period as the GOP.
pub const AMF_KEY_FRAMES: &'static str = "expr:gte(t,n_forced*2)";

/// A raw BGRA video pipe produced by window or monitor capture.
pub struct VideoPipe<'a> {
    pub path: &'a str,
    pub width: u32,
    pub height: u32,
}

/// Where one replay run writes its segments and segment list.
#[derive(Clone)]
pub struct ReplayRun {
    pub dir: String,
    pub pattern: String,
    pub list: String,
}

/// `n` kilobits, as ffmpeg rate text ("6000k").
pub open spec fn kbit(n: nat) -> Seq<char> {
    dec(n) + "k"@
}

/// Encoder-specific low-latency options of the live output.
pub open spec fn live_tuning(enc: Encoder) -> Seq<Seq<char>> {
    match enc {
        Encoder::X264 => seq!["-preset"@, "veryfast"@, "-tune"@, "zerolatency"@],
        Encoder::Nvenc => seq![
            "-preset"@,
            "p1"@,
            "-tune"@,
            "ull"@,
            "-rc"@,
            "cbr"@,
            "-zerolatency"@,
            "1"@,
            "-delay"@,
            "0"@,
        ],
        Encoder::Amf => seq![
            "-usage"@,
            "lowlatency"@,
            "-quality"@,
            "speed"@,
            "-rc"@,
            "cbr"@,
            "-forced_idr"@,
            "1"@,
        ],
    }
}

/// H.264 profile of the live output.
pub open spec fn live_profile(enc: Encoder) -> Seq<char> {
    match enc {
        Encoder::Amf => "main"@,
        _ => "baseline"@,
    }
}

/// Peak rate of the live output in kbit/s (x264 gets 25% headroom).
pub open spec fn live_maxrate(enc: Encoder, kbps: nat) -> nat {
    match enc {
        Encoder::X264 => kbps * 5 / 4,
        _ => kbps,
    }
}

/// Rate-control buffer of the live output in kbit.
pub open spec fn live_bufsize(enc: Encoder, kbps: nat) -> nat {
    match enc {
        Encoder::X264 => kbps * 2,
        _ => kbps,
    }
}

/// Encoder options of the live (WHIP) output.
pub open spec fn spec_live_encoder_args(enc: Encoder, fps: nat, kbps: nat) -> Seq<Seq<char>> {
    seq!["-c:v"@, encoder_name(enc)] + live_tuning(enc) + seq![
        "-profile:v"@,
        live_profile(enc),
        "-bf"@,
        "0"@,
    ] + seq![
        "-g"@,
        dec(2 * fps),
        "-r"@,
        dec(fps),
        "-b:v"@,
        kbit(kbps),
        "-maxrate"@,
        kbit(live_maxrate(enc, kbps)),
        "-bufsize"@,
        kbit(live_bufsize(enc, kbps)),
    ]
}

/// Encoder-specific quality options of the replay recording.
pub open spec fn replay_tuning(enc: Encoder, kbps: nat) -> Seq<Seq<char>> {
    match enc {
        Encoder::X264 => seq!["-preset"@, "veryfast"@],
        Encoder::Nvenc => seq![
            "-preset"@,
            "p5"@,
            "-tune"@,
            "hq"@,
            "-rc"@,
            "vbr"@,
            "-maxrate"@,
            kbit(kbps * 5 / 4),
            "-bufsize"@,
            kbit(kbps * 2),
        ],
        Encoder::Amf => seq![
            "-usage"@,
            "transcoding"@,
            "-quality"@,
            "quality"@,
            "-rc"@,
            "vbr_peak"@,
            "-maxrate"@,
            kbit(kbps * 5 / 4),
            "-bufsize"@,
            kbit(kbps * 2),
        ],
    }
}

/// Encoder options of the replay recording (and of re-encodes of it).
pub open spec fn spec_replay_encoder_args(enc: Encoder, fps: nat, kbps: nat) -> Seq<Seq<char>> {
    seq!["-c:v"@, encoder_name(enc)] + replay_tuning(enc, kbps) + seq![
        "-profile:v"@,
        "high"@,
        "-pix_fmt"@,
        "yuv420p"@,
        "-g"@,
        dec(2 * fps),
        "-r"@,
        dec(fps),
        "-b:v"@,
        kbit(kbps),
    ]
}

/// The output box height: the requested resolution, at least 360.
pub open spec fn box_height(resolution: nat) -> nat {
    if resolution < 360 {
        360
    } else {
        resolution
    }
}

/// The output box width: 16:9 of the height, rounded down to even.
pub open spec fn box_width(resolution: nat) -> nat {
    let w = box_height(resolution) * 16 / 9;
    (w - w % 2) as nat
}

/// Scale filter tail: fit inside the box without ever upscaling, keep
/// the aspect ratio and even dimensions, then convert to yuv420p.
pub open spec fn spec_scale_tail(resolution: nat) -> Seq<char> {
    "scale='min(iw,"@ + dec(box_width(resolution)) + ")':'min(ih,"@ + dec(box_height(resolution))
        + ")':force_original_aspect_ratio=decrease:force_divisible_by=2:flags=bilinear,format=yuv420p"@
}

/// Video filter: captured pipes are already in system memory, ddagrab
/// frames must be downloaded from the GPU first.
pub open spec fn spec_video_filter(piped: bool, tail: Seq<char>) -> Seq<char> {
    if piped {
        tail
    } else {
        "hwdownload,format=bgra,"@ + tail
    }
}

/// The video input options; `None` when a window is captured without a
/// pipe (window capture always goes through a pipe).
pub open spec fn spec_video_input(
    source: CaptureSource,
    fps: nat,
    pipe: Option<(Seq<char>, nat, nat)>,
) -> Option<Seq<Seq<char>>> {
    match pipe {
        Some((path, w, h)) => Some(
            seq![
                "-f"@,
                "rawvideo"@,
                "-pix_fmt"@,
                "bgra"@,
                "-video_size"@,
                dec(w) + "x"@ + dec(h),
                "-framerate"@,
                dec(fps),
                "-thread_queue_size"@,
                "64"@,
                "-i"@,
                path,
            ],
        ),
        None => match source {
            CaptureSource::Monitor { index } => Some(
                seq![
                    "-f"@,
                    "lavfi"@,
                    "-i"@,
                    "ddagrab=output_idx="@ + dec(index as nat) + ":framerate="@ + dec(fps),
                ],
            ),
            CaptureSource::Window { .. } => None,
        },
    }
}

/// The view of an optional video pipe: its path and frame size.
pub open spec fn pipe_view(p: Option<&VideoPipe>) -> Option<(Seq<char>, nat, nat)> {
    match p {
        Some(v) => Some((v.path@, v.width as nat, v.height as nat)),
        None => None,
    }
}

/// The message of the one argument-building error.
pub open spec fn window_without_pipe() -> Seq<char> {
    "window capture needs a video pipe"@
}

/// Setup preview: MJPEG frames on stdout.
pub open spec fn spec_preview_args(source: CaptureSource, pipe: Option<(Seq<char>, nat, nat)>) -> Option<
    Seq<Seq<char>>,
> {
    match spec_video_input(source, PREVIEW_FPS as nat, pipe) {
        Some(input) => Some(
            seq!["-hide_banner"@, "-loglevel"@, "error"@, "-nostats"@] + input + seq![
                "-vf"@,
                spec_video_filter(pipe is Some, PREVIEW_TAIL@),
                "-q:v"@,
                "7"@,
                "-r"@,
                dec(PREVIEW_FPS as nat),
                "-f"@,
                "mpjpeg"@,
                "pipe:1"@,
            ],
        ),
        None => None,
    }
}

/// Audio input options.
pub open spec fn spec_audio_input(audio: AudioSource) -> Seq<Seq<char>> {
    match audio {
        AudioSource::Pipe(path) => seq![
            "-thread_queue_size"@,
            "512"@,
            "-f"@,
            "f32le"@,
            "-ar"@,
            "48000"@,
            "-ac"@,
            "2"@,
            "-channel_layout"@,
            "stereo"@,
            "-i"@,
            path@,
        ],
        AudioSource::Silent => seq!["-f"@, "lavfi"@, "-i"@, "anullsrc=r=48000:cl=stereo"@],
    }
}

/// The filter graph used when the captured video feeds more than one
/// output: split video for live, replay and preview; split audio for
/// live and replay.
pub open spec fn spec_filter_complex(vf: Seq<char>, replay: bool, preview: bool) -> Seq<char> {
    let n: nat = 1 + (if replay { 1nat } else { 0nat }) + (if preview { 1nat } else { 0nat });
    "[0:v]"@ + vf + ",split="@ + dec(n) + "[vw]"@ + (if replay { "[vr]"@ } else { Seq::empty() }) + (
    if preview {
        "[vp0];[vp0]"@ + PREVIEW_TAIL@ + "[vp]"@
    } else {
        Seq::empty()
    }) + (if replay {
        ";[1:a]"@ + AUDIO_FILTER@ + ",asplit=2[aw][ar]"@
    } else {
        Seq::empty()
    })
}

/// The live WHIP output.
pub open spec fn spec_live_output(
    vf: Seq<char>,
    replay: bool,
    preview: bool,
    enc: Encoder,
    fps: nat,
    kbps: nat,
    whip_url: Seq<char>,
) -> Seq<Seq<char>> {
    let split = replay || preview;
    seq![
        "-map"@,
        if split { "[vw]"@ } else { "0:v"@ },
        "-map"@,
        if replay { "[aw]"@ } else { "1:a"@ },
    ] + (if split { Seq::empty() } else { seq!["-vf"@, vf] }) + (if replay {
        Seq::empty()
    } else {
        seq!["-af"@, AUDIO_FILTER@]
    }) + spec_live_encoder_args(enc, fps, kbps) + (if enc == Encoder::Amf {
        seq!["-force_key_frames"@, AMF_KEY_FRAMES@]
    } else {
        Seq::empty()
    }) + seq![
        "-c:a"@,
        "libopus"@,
        "-b:a"@,
        "96k"@,
        "-ar"@,
        "48000"@,
        "-ac"@,
        "2"@,
        "-ts_buffer_size"@,
        "4194304"@,
        "-f"@,
        "whip"@,
        whip_url,
    ]
}

/// Audio codec and segment-muxer options of the replay output.
pub open spec fn spec_segment_tail(run: ReplayRun) -> Seq<Seq<char>> {
    seq![
        "-c:a"@,
        "aac"@,
        "-b:a"@,
        "160k"@,
        "-ar"@,
        "48000"@,
        "-ac"@,
        "2"@,
        "-f"@,
        "segment"@,
        "-segment_time"@,
        dec(SEGMENT_SECS as nat),
        "-segment_format"@,
        "mp4"@,
        "-segment_format_options"@,
        "movflags=+frag_keyframe+empty_moov"@,
        "-reset_timestamps"@,
        "1"@,
        "-segment_list"@,
        run.list@,
        "-segment_list_type"@,
        "csv"@,
        "-segment_list_flags"@,
        "+live"@,
        run.pattern@,
    ]
}

/// The segmented MP4 replay output.
pub open spec fn spec_replay_output(run: ReplayRun, enc: Encoder, fps: nat, kbps: nat) -> Seq<
    Seq<char>,
> {
    seq!["-map"@, "[vr]"@, "-map"@, "[ar]"@] + spec_replay_encoder_args(enc, fps, kbps)
        + spec_segment_tail(run)
}

/// The local debug preview output: MJPEG frames on a pipe.
pub open spec fn spec_preview_output(path: Seq<char>) -> Seq<Seq<char>> {
    seq![
        "-map"@,
        "[vp]"@,
        "-an"@,
        "-c:v"@,
        "mjpeg"@,
        "-q:v"@,
        "7"@,
        "-r"@,
        dec(PREVIEW_FPS as nat),
        "-f"@,
        "mpjpeg"@,
        path,
    ]
}

/// Frame rate actually used: at least 1.
pub open spec fn effective_fps(settings: StreamSettings) -> nat {
    if settings.framerate < 1 {
        1
    } else {
        settings.framerate as nat
    }
}

/// Bitrate actually used: at least 500 kbit/s.
pub open spec fn effective_kbps(settings: StreamSettings) -> nat {
    if settings.bitrate_kbps < 500 {
        500
    } else {
        settings.bitrate_kbps as nat
    }
}

/// The full live command line.
pub open spec fn spec_build_args(
    settings: StreamSettings,
    whip_url: Seq<char>,
    audio: AudioSource,
    replay: Option<ReplayRun>,
    pipe: Option<(Seq<char>, nat, nat)>,
    enc: Encoder,
    preview: Option<Seq<char>>,
) -> Option<Seq<Seq<char>>> {
    let fps = effective_fps(settings);
    let kbps = effective_kbps(settings);
    let vf = spec_video_filter(pipe is Some, spec_scale_tail(settings.resolution as nat));
    let split = replay is Some || preview is Some;
    match spec_video_input(settings.source, fps, pipe) {
        Some(input) => Some(
            seq![
                "-hide_banner"@,
                "-loglevel"@,
                "info"@,
                "-nostats"@,
                "-progress"@,
                "pipe:1"@,
                "-stats_period"@,
                "1"@,
            ] + input + spec_audio_input(audio) + (if split {
                seq!["-filter_complex"@, spec_filter_complex(vf, replay is Some, preview is Some)]
            } else {
                Seq::empty()
            }) + spec_live_output(vf, replay is Some, preview is Some, enc, fps, kbps, whip_url)
                + (match replay {
                Some(run) => spec_replay_output(run, enc, fps, kbps),
                None => Seq::empty(),
            }) + (match preview {
                Some(p) => spec_preview_output(p),
                None => Seq::empty(),
            }),
        ),
        None => None,
    }
}

/// Owned copies of string slices, in order.
pub fn owned(v: &[&str]) -> (r: Vec<String>)
    ensures
        views(r@) == v@.map_values(|s: &str| s@),
{
    let mut r: Vec<String> = Vec::new();
    let mut i: usize = 0;
    while i < v.len()
        invariant
            i <= v@.len(),
            views(r@) == v@.subrange(0, i as int).map_values(|s: &str| s@),
        decreases v@.len() - i,
    {
        push_arg(&mut r, v[i]);
        i = i + 1;
        assert(views(r@) =~= v@.subrange(0, i as int).map_values(|s: &str| s@));
    }
    assert(v@.subrange(0, v@.len() as int) =~= v@);
    r
}

/// `n` followed by `k` ("6000k").
fn kbit_text(n: u64) -> (r: String)
    ensures
        r@ == kbit(n as nat),
{
    let mut r = dec_u64(n);
    push_str(&mut r, "k");
    r
}

/// Encoder options of the live output.
pub fn live_encoder_args(enc: Encoder, fps: u32, kbps: u32) -> (a: Vec<String>)
    ensures
        views(a@) == spec_live_encoder_args(enc, fps as nat, kbps as nat),
{
    let mut a: Vec<String> = Vec::new();
    push_arg(&mut a, "-c:v");
    push_arg(&mut a, enc.name());
    match enc {
        Encoder::X264 => {
            push_arg(&mut a, "-preset");
            push_arg(&mut a, "veryfast");
            push_arg(&mut a, "-tune");
            push_arg(&mut a, "zerolatency");
        },
        Encoder::Nvenc => {
            push_arg(&mut a, "-preset");
            push_arg(&mut a, "p1");
            push_arg(&mut a, "-tune");
            push_arg(&mut a, "ull");
            push_arg(&mut a, "-rc");
            push_arg(&mut a, "cbr");
            push_arg(&mut a, "-zerolatency");
            push_arg(&mut a, "1");
            push_arg(&mut a, "-delay");
            push_arg(&mut a, "0");
        },
        Encoder::Amf => {
            push_arg(&mut a, "-usage");
            push_arg(&mut a, "lowlatency");
            push_arg(&mut a, "-quality");
            push_arg(&mut a, "speed");
            push_arg(&mut a, "-rc");
            push_arg(&mut a, "cbr");
            push_arg(&mut a, "-forced_idr");
            push_arg(&mut a, "1");
        },
    }
    push_arg(&mut a, "-profile:v");
    match enc {
        Encoder::Amf => push_arg(&mut a, "main"),
        _ => push_arg(&mut a, "baseline"),
    }
    push_arg(&mut a, "-bf");
    push_arg(&mut a, "0");
    let k = kbps as u64;
    let (maxrate, bufsize) = match enc {
        Encoder::X264 => (k * 5 / 4, k * 2),
        _ => (k, k),
    };
    push_arg(&mut a, "-g");
    push_string(&mut a, dec_u64(2 * fps as u64));
    push_arg(&mut a, "-r");
    push_string(&mut a, dec_u64(fps as u64));
    push_arg(&mut a, "-b:v");
    push_string(&mut a, kbit_text(k));
    push_arg(&mut a, "-maxrate");
    push_string(&mut a, kbit_text(maxrate));
    push_arg(&mut a, "-bufsize");
    push_string(&mut a, kbit_text(bufsize));
    assert(views(a@) =~= spec_live_encoder_args(enc, fps as nat, kbps as nat));
    a
}

/// Encoder options of the replay recording.
pub fn replay_encoder_args(enc: Encoder, fps: u32, kbps: u32) -> (a: Vec<String>)
    ensures
        views(a@) == spec_replay_encoder_args(enc, fps as nat, kbps as nat),
{
    let mut a: Vec<String> = Vec::new();
    push_arg(&mut a, "-c:v");
    push_arg(&mut a, enc.name());
    let k = kbps as u64;
    match enc {
        Encoder::X264 => {
            push_arg(&mut a, "-preset");
            push_arg(&mut a, "veryfast");
        },
        Encoder::Nvenc => {
            push_arg(&mut a, "-preset");
            push_arg(&mut a, "p5");
            push_arg(&mut a, "-tune");
            push_arg(&mut a, "hq");
            push_arg(&mut a, "-rc");
            push_arg(&mut a, "vbr");
            push_arg(&mut a, "-maxrate");
            push_string(&mut a, kbit_text(k * 5 / 4));
            push_arg(&mut a, "-bufsize");
            push_string(&mut a, kbit_text(k * 2));
        },
        Encoder::Amf => {
            push_arg(&mut a, "-usage");
            push_arg(&mut a, "transcoding");
            push_arg(&mut a, "-quality");
            push_arg(&mut a, "quality");
            push_arg(&mut a, "-rc");
            push_arg(&mut a, "vbr_peak");
            push_arg(&mut a, "-maxrate");
            push_string(&mut a, kbit_text(k * 5 / 4));
            push_arg(&mut a, "-bufsize");
            push_string(&mut a, kbit_text(k * 2));
        },
    }
    push_arg(&mut a, "-profile:v");
    push_arg(&mut a, "high");
    push_arg(&mut a, "-pix_fmt");
    push_arg(&mut a, "yuv420p");
    push_arg(&mut a, "-g");
    push_string(&mut a, dec_u64(2 * fps as u64));
    push_arg(&mut a, "-r");
    push_string(&mut a, dec_u64(fps as u64));
    push_arg(&mut a, "-b:v");
    push_string(&mut a, kbit_text(k));
    assert(views(a@) =~= spec_replay_encoder_args(enc, fps as nat, kbps as nat));
    a
}

/// The scale filter tail for the requested output resolution.
pub fn scale_tail(resolution: u32) -> (r: String)
    ensures
        r@ == spec_scale_tail(resolution as nat),
{
    let h: u64 = if resolution < 360 {
        360
    } else {
        resolution as u64
    };
    let w0: u64 = h * 16 / 9;
    let w: u64 = w0 - w0 % 2;
    let mut r = concat2("scale='min(iw,", dec_u64(w).as_str());
    push_str(&mut r, ")':'min(ih,");
    push_str(&mut r, dec_u64(h).as_str());
    push_str(
        &mut r,
        ")':force_original_aspect_ratio=decrease:force_divisible_by=2:flags=bilinear,format=yuv420p",
    );
    r
}

/// The video filter for piped or GPU-resident input.
pub fn video_filter(piped: bool, tail: &str) -> (r: String)
    ensures
        r@ == spec_video_filter(piped, tail@),
{
    if piped {
        owned_str(tail)
    } else {
        concat2("hwdownload,format=bgra,", tail)
    }
}

/// Appends the video input options; fails for a window without a pipe,
/// leaving `a` unchanged.
pub fn push_video_input(
    a: &mut Vec<String>,
    source: &CaptureSource,
    fps: u32,
    video_pipe: Option<&VideoPipe>,
) -> (r: Result<(), String>)
    ensures
        match spec_video_input(*source, fps as nat, pipe_view(video_pipe)) {
            Some(input) => r is Ok && views(final(a)@) == views(old(a)@) + input,
            None => r is Err && final(a)@ == old(a)@ && r->Err_0@ == window_without_pipe(),
        },
{
    let ghost start = views(a@);
    if let Some(pipe) = video_pipe {
        push_arg(a, "-f");
        push_arg(a, "rawvideo");
        push_arg(a, "-pix_fmt");
        push_arg(a, "bgra");
        push_arg(a, "-video_size");
        let mut size = dec_u64(pipe.width as u64);
        push_str(&mut size, "x");
        push_str(&mut size, dec_u64(pipe.height as u64).as_str());
        push_string(a, size);
        push_arg(a, "-framerate");
        push_string(a, dec_u64(fps as u64));
        push_arg(a, "-thread_queue_size");
        push_arg(a, "64");
        push_arg(a, "-i");
        push_arg(a, pipe.path);
        assert(views(a@) =~= start + spec_video_input(*source, fps as nat, pipe_view(video_pipe))->0);
        return Ok(());
    }
    match source {
        CaptureSource::Monitor { index } => {
            push_arg(a, "-f");
            push_arg(a, "lavfi");
            push_arg(a, "-i");
            let mut g = concat2("ddagrab=output_idx=", dec_u64(*index as u64).as_str());
            push_str(&mut g, ":framerate=");
            push_str(&mut g, dec_u64(fps as u64).as_str());
            push_string(a, g);
            assert(views(a@) =~= start + spec_video_input(*source, fps as nat, pipe_view(video_pipe))->0);
            Ok(())
        },
        CaptureSource::Window { .. } => Err(owned_str("window capture needs a video pipe")),
    }
}

/// The setup preview command line (MJPEG on stdout).
pub fn build_preview_args(source: &CaptureSource, video_pipe: Option<&VideoPipe>) -> (r: Result<
    Vec<String>,
    String,
>)
    ensures
        match spec_preview_args(*source, pipe_view(video_pipe)) {
            Some(args) => r is Ok && views(r->Ok_0@) == args,
            None => r is Err && r->Err_0@ == window_without_pipe(),
        },
{
    let mut a: Vec<String> = Vec::new();
    push_arg(&mut a, "-hide_banner");
    push_arg(&mut a, "-loglevel");
    push_arg(&mut a, "error");
    push_arg(&mut a, "-nostats");
    push_video_input(&mut a, source, PREVIEW_FPS, video_pipe)?;
    let vf = video_filter(video_pipe.is_some(), PREVIEW_TAIL);
    push_arg(&mut a, "-vf");
    push_string(&mut a, vf);
    push_arg(&mut a, "-q:v");
    push_arg(&mut a, "7");
    push_arg(&mut a, "-r");
    push_string(&mut a, dec_u64(PREVIEW_FPS as u64));
    push_arg(&mut a, "-f");
    push_arg(&mut a, "mpjpeg");
    push_arg(&mut a, "pipe:1");
    assert(views(a@) =~= spec_preview_args(*source, pipe_view(video_pipe))->0);
    Ok(a)
}

fn filter_complex(vf: &str, replay: bool, preview: bool) -> (r: String)
    ensures
        r@ == spec_filter_complex(vf@, replay, preview),
{
    let n: u64 = 1 + (if replay { 1 } else { 0 }) + (if preview { 1 } else { 0 });
    let mut f = concat2("[0:v]", vf);
    push_str(&mut f, ",split=");
    push_str(&mut f, dec_u64(n).as_str());
    push_str(&mut f, "[vw]");
    if replay {
        push_str(&mut f, "[vr]");
    }
    if preview {
        push_str(&mut f, "[vp0];[vp0]");
        push_str(&mut f, PREVIEW_TAIL);
        push_str(&mut f, "[vp]");
    }
    if replay {
        push_str(&mut f, ";[1:a]");
        push_str(&mut f, AUDIO_FILTER);
        push_str(&mut f, ",asplit=2[aw][ar]");
    }
    assert(f@ =~= spec_filter_complex(vf@, replay, preview));
    f
}

fn push_audio_input(a: &mut Vec<String>, audio: &AudioSource)
    ensures
        views(final(a)@) == views(old(a)@) + spec_audio_input(*audio),
{
    let ghost start = views(a@);
    match audio {
        AudioSource::Pipe(path) => {
            push_arg(a, "-thread_queue_size");
            push_arg(a, "512");
            push_arg(a, "-f");
            push_arg(a, "f32le");
            push_arg(a, "-ar");
            push_arg(a, "48000");
            push_arg(a, "-ac");
            push_arg(a, "2");
            push_arg(a, "-channel_layout");
            push_arg(a, "stereo");
            push_arg(a, "-i");
            push_arg(a, path.as_str());
        },
        AudioSource::Silent => {
            push_arg(a, "-f");
            push_arg(a, "lavfi");
            push_arg(a, "-i");
            push_arg(a, "anullsrc=r=48000:cl=stereo");
        },
    }
    assert(views(a@) =~= start + spec_audio_input(*audio));
}

fn push_output_maps(a: &mut Vec<String>, replay: bool, preview: bool)
    ensures
        views(final(a)@) == views(old(a)@) + seq![
            "-map"@,
            if replay || preview { "[vw]"@ } else { "0:v"@ },
            "-map"@,
            if replay { "[aw]"@ } else { "1:a"@ },
        ],
{
    let ghost start = views(a@);
    push_arg(a, "-map");
    if replay || preview {
        push_arg(a, "[vw]");
    } else {
        push_arg(a, "0:v");
    }
    push_arg(a, "-map");
    if replay {
        push_arg(a, "[aw]");
    } else {
        push_arg(a, "1:a");
    }
    assert(views(a@) =~= start + seq![
        "-map"@,
        if replay || preview { "[vw]"@ } else { "0:v"@ },
        "-map"@,
        if replay { "[aw]"@ } else { "1:a"@ },
    ]);
}

fn push_whip_tail(a: &mut Vec<String>, whip_url: &str)
    ensures
        views(final(a)@) == views(old(a)@) + seq![
            "-c:a"@,
            "libopus"@,
            "-b:a"@,
            "96k"@,
            "-ar"@,
            "48000"@,
            "-ac"@,
            "2"@,
            "-ts_buffer_size"@,
            "4194304"@,
            "-f"@,
            "whip"@,
            whip_url@,
        ],
{
    let ghost start = views(a@);
    push_arg(a, "-c:a");
    push_arg(a, "libopus");
    push_arg(a, "-b:a");
    push_arg(a, "96k");
    push_arg(a, "-ar");
    push_arg(a, "48000");
    push_arg(a, "-ac");
    push_arg(a, "2");
    push_arg(a, "-ts_buffer_size");
    push_arg(a, "4194304");
    push_arg(a, "-f");
    push_arg(a, "whip");
    push_arg(a, whip_url);
    assert(views(a@) =~= start + seq![
        "-c:a"@,
        "libopus"@,
        "-b:a"@,
        "96k"@,
        "-ar"@,
        "48000"@,
        "-ac"@,
        "2"@,
        "-ts_buffer_size"@,
        "4194304"@,
        "-f"@,
        "whip"@,
        whip_url@,
    ]);
}

fn push_live_output(
    a: &mut Vec<String>,
    vf: &str,
    replay: bool,
    preview: bool,
    enc: Encoder,
    fps: u32,
    kbps: u32,
    whip_url: &str,
)
    ensures
        views(final(a)@) == views(old(a)@) + spec_live_output(
            vf@,
            replay,
            preview,
            enc,
            fps as nat,
            kbps as nat,
            whip_url@,
        ),
{
    let ghost s0 = views(a@);
    let split = replay || preview;
    push_output_maps(a, replay, preview);
    let ghost s1 = views(a@);
    if !split {
        push_arg(a, "-vf");
        push_arg(a, vf);
    }
    let ghost p2: Seq<Seq<char>> = if split { Seq::empty() } else { seq!["-vf"@, vf@] };
    assert(views(a@) =~= s1 + p2);
    let ghost s2 = views(a@);
    if !replay {
        push_arg(a, "-af");
        push_arg(a, AUDIO_FILTER);
    }
    let ghost p3: Seq<Seq<char>> = if replay { Seq::empty() } else { seq!["-af"@, AUDIO_FILTER@] };
    assert(views(a@) =~= s2 + p3);
    let ghost s3 = views(a@);
    extend_args(a, live_encoder_args(enc, fps, kbps));
    let ghost s4 = views(a@);
    if enc == Encoder::Amf {
        push_arg(a, "-force_key_frames");
        push_arg(a, AMF_KEY_FRAMES);
    }
    let ghost p5: Seq<Seq<char>> = if enc == Encoder::Amf {
        seq!["-force_key_frames"@, AMF_KEY_FRAMES@]
    } else {
        Seq::empty()
    };
    assert(views(a@) =~= s4 + p5);
    let ghost s5 = views(a@);
    push_whip_tail(a, whip_url);
    assert(views(a@) =~= s0 + spec_live_output(
        vf@,
        replay,
        preview,
        enc,
        fps as nat,
        kbps as nat,
        whip_url@,
    ));
}

fn push_segment_tail(a: &mut Vec<String>, run: &ReplayRun)
    ensures
        views(final(a)@) == views(old(a)@) + spec_segment_tail(*run),
{
    let ghost start = views(a@);
    push_arg(a, "-c:a");
    push_arg(a, "aac");
    push_arg(a, "-b:a");
    push_arg(a, "160k");
    push_arg(a, "-ar");
    push_arg(a, "48000");
    push_arg(a, "-ac");
    push_arg(a, "2");
    push_arg(a, "-f");
    push_arg(a, "segment");
    push_arg(a, "-segment_time");
    push_string(a, dec_u64(SEGMENT_SECS as u64));
    let ghost mid = views(a@);
    assert(mid =~= start + spec_segment_tail(*run).subrange(0, 12));
    push_arg(a, "-segment_format");
    push_arg(a, "mp4");
    push_arg(a, "-segment_format_options");
    push_arg(a, "movflags=+frag_keyframe+empty_moov");
    push_arg(a, "-reset_timestamps");
    push_arg(a, "1");
    push_arg(a, "-segment_list");
    push_arg(a, run.list.as_str());
    push_arg(a, "-segment_list_type");
    push_arg(a, "csv");
    push_arg(a, "-segment_list_flags");
    push_arg(a, "+live");
    push_arg(a, run.pattern.as_str());
    assert(views(a@) =~= mid + spec_segment_tail(*run).subrange(12, 25));
    assert(views(a@) =~= start + spec_segment_tail(*run));
}

fn push_replay_output(a: &mut Vec<String>, run: &ReplayRun, enc: Encoder, fps: u32, kbps: u32)
    ensures
        views(final(a)@) == views(old(a)@) + spec_replay_output(
            *run,
            enc,
            fps as nat,
            kbps as nat,
        ),
{
    let ghost start = views(a@);
    push_arg(a, "-map");
    push_arg(a, "[vr]");
    push_arg(a, "-map");
    push_arg(a, "[ar]");
    assert(views(a@) =~= start + seq!["-map"@, "[vr]"@, "-map"@, "[ar]"@]);
    let ghost s1 = views(a@);
    extend_args(a, replay_encoder_args(enc, fps, kbps));
    let ghost s2 = views(a@);
    push_segment_tail(a, run);
    assert(views(a@) =~= start + spec_replay_output(*run, enc, fps as nat, kbps as nat));
}

fn push_preview_output(a: &mut Vec<String>, path: &str)
    ensures
        views(final(a)@) == views(old(a)@) + spec_preview_output(path@),
{
    let ghost start = views(a@);
    push_arg(a, "-map");
    push_arg(a, "[vp]");
    push_arg(a, "-an");
    push_arg(a, "-c:v");
    push_arg(a, "mjpeg");
    push_arg(a, "-q:v");
    push_arg(a, "7");
    push_arg(a, "-r");
    push_string(a, dec_u64(PREVIEW_FPS as u64));
    push_arg(a, "-f");
    push_arg(a, "mpjpeg");
    push_arg(a, path);
    assert(views(a@) =~= start + spec_preview_output(path@));
}

/// The live command line: capture input, audio input, the WHIP output,
/// then the replay segments when `replay` is given and the debug preview
/// when `preview_pipe` is given.
pub fn build_args(
    settings: &StreamSettings,
    whip_url: &str,
    audio: &AudioSource,
    replay: Option<&ReplayRun>,
    video_pipe: Option<&VideoPipe>,
    encoder: Encoder,
    preview_pipe: Option<&str>,
) -> (r: Result<Vec<String>, String>)
    ensures
        match spec_build_args(
            *settings,
            whip_url@,
            *audio,
            match replay {
                Some(run) => Some(*run),
                None => None,
            },
            pipe_view(video_pipe),
            encoder,
            match preview_pipe {
                Some(p) => Some(p@),
                None => None,
            },
        ) {
            Some(args) => r is Ok && views(r->Ok_0@) == args,
            None => r is Err && r->Err_0@ == window_without_pipe(),
        },
{
    let fps: u32 = if settings.framerate < 1 {
        1
    } else {
        settings.framerate
    };
    let kbps: u32 = if settings.bitrate_kbps < 500 {
        500
    } else {
        settings.bitrate_kbps
    };
    let mut a: Vec<String> = Vec::new();
    push_arg(&mut a, "-hide_banner");
    push_arg(&mut a, "-loglevel");
    push_arg(&mut a, "info");
    push_arg(&mut a, "-nostats");
    push_arg(&mut a, "-progress");
    push_arg(&mut a, "pipe:1");
    push_arg(&mut a, "-stats_period");
    push_arg(&mut a, "1");
    let ghost head = views(a@);
    let ghost rv = match replay {
        Some(run) => Some(*run),
        None => None,
    };
    let ghost pv = match preview_pipe {
        Some(p) => Some(p@),
        None => None,
    };
    assert(head =~= seq![
        "-hide_banner"@,
        "-loglevel"@,
        "info"@,
        "-nostats"@,
        "-progress"@,
        "pipe:1"@,
        "-stats_period"@,
        "1"@,
    ]);
    push_video_input(&mut a, &settings.source, fps, video_pipe)?;
    let ghost input = spec_video_input(settings.source, fps as nat, pipe_view(video_pipe))->0;
    assert(views(a@) == head + input);
    let tail = scale_tail(settings.resolution);
    let vf = video_filter(video_pipe.is_some(), tail.as_str());
    let ghost s1 = views(a@);
    push_audio_input(&mut a, audio);
    let has_replay = replay.is_some();
    let has_preview = preview_pipe.is_some();
    let ghost s2 = views(a@);
    if has_replay || has_preview {
        push_arg(&mut a, "-filter_complex");
        push_string(&mut a, filter_complex(vf.as_str(), has_replay, has_preview));
    }
    let ghost fpart: Seq<Seq<char>> = if has_replay || has_preview {
        seq!["-filter_complex"@, spec_filter_complex(vf@, has_replay, has_preview)]
    } else {
        Seq::empty()
    };
    assert(views(a@) =~= s2 + fpart);
    let ghost s3 = views(a@);
    push_live_output(&mut a, vf.as_str(), has_replay, has_preview, encoder, fps, kbps, whip_url);
    let ghost s4 = views(a@);
    if let Some(run) = replay {
        push_replay_output(&mut a, run, encoder, fps, kbps);
    }
    let ghost rpart: Seq<Seq<char>> = match rv {
        Some(run) => spec_replay_output(run, encoder, fps as nat, kbps as nat),
        None => Seq::empty(),
    };
    assert(views(a@) =~= s4 + rpart);
    let ghost s5 = views(a@);
    if let Some(p) = preview_pipe {
        push_preview_output(&mut a, p);
    }
    let ghost ppart: Seq<Seq<char>> = match pv {
        Some(p) => spec_preview_output(p),
        None => Seq::empty(),
    };
    assert(views(a@) =~= s5 + ppart);
    proof {
        let spec = spec_build_args(*settings, whip_url@, *audio, rv, pipe_view(video_pipe), encoder, pv);
        assert(fps as nat == effective_fps(*settings));
        assert(kbps as nat == effective_kbps(*settings));
        assert(vf@ == spec_video_filter(pipe_view(video_pipe) is Some, spec_scale_tail(settings.resolution as nat)));
        assert(views(a@) =~= spec->0);
    }
    Ok(a)
}

/// The container formats the bundled ffmpeg build can read and write
/// (it is built with everything else disabled).
pub open spec fn shipped_format(f: Seq<char>) -> bool {
    ||| f == "whip"@
    ||| f == "mp4"@
    ||| f == "mpjpeg"@
    ||| f == "mjpeg"@
    ||| f == "segment"@
    ||| f == "rawvideo"@
    ||| f == "f32le"@
    ||| f == "lavfi"@
}

/// Every `-f` option of a command line names a shipped format.
pub open spec fn formats_shipped(args: Seq<Seq<char>>) -> bool {
    forall|i: int| 0 <= i < args.len() - 1 && #[trigger] args[i] == "-f"@ ==> shipped_format(args[i + 1])
}

/// Whether a command line has the option `flag` followed by `value`.
pub open spec fn has_option(args: Seq<Seq<char>>, flag: Seq<char>, value: Seq<char>) -> bool {
    exists|i: int| 0 <= i < args.len() - 1 && #[trigger] args[i] == flag && args[i + 1] == value
}

/// Whether a command line has the argument `a` anywhere.
pub open spec fn has_arg(args: Seq<Seq<char>>, a: Seq<char>) -> bool {
    exists|i: int| 0 <= i < args.len() && #[trigger] args[i] == a
}

/// Length and first three characters of `x` agree with those of `t`
/// (implied by `x == t`; enough to tell apart the texts compared here).
spec fn looks_like(x: Seq<char>, t: Seq<char>) -> bool {
    x.len() == t.len() && x[0] == t[0] && x[1] == t[1] && x[2] == t[2]
}

/// The text `-f`, character by character.
spec fn is_format_flag(x: Seq<char>) -> bool {
    x.len() == 2 && x[0] == '-' && x[1] == 'f'
}

/// The properties of neighbouring arguments the laws below rely on.
enum ArgCheck {
    /// A `-f` is followed by a shipped format.
    Shipped,
    /// No `-f` is followed by the preview format.
    NoPreviewFormat,
    /// Neither argument is the AMF key-frame option.
    NoKeyFrames,
}

/// `x` is not `t`: told apart by length or a first character, or else
/// known to differ.
spec fn differs(x: Seq<char>, t: Seq<char>) -> bool {
    !looks_like(x, t) || x != t
}

spec fn pair_ok(c: ArgCheck, x: Seq<char>, y: Seq<char>) -> bool {
    match c {
        ArgCheck::Shipped => is_format_flag(x) ==> shipped_format(y),
        ArgCheck::NoPreviewFormat => !is_format_flag(x) || differs(y, "mpjpeg"@),
        ArgCheck::NoKeyFrames => differs(x, "-force_key_frames"@) && differs(y, "-force_key_frames"@),
    }
}

spec fn pair_at(c: ArgCheck, args: Seq<Seq<char>>, i: int) -> bool {
    pair_ok(c, args[i], args[i + 1])
}

/// Every two neighbouring arguments pass the check.
spec fn pairs_ok(c: ArgCheck, args: Seq<Seq<char>>) -> bool {
    forall|i: int| 0 <= i < args.len() - 1 ==> #[trigger] pair_at(c, args, i)
}

proof fn lemma_looks_like(x: Seq<char>, t: Seq<char>)
    requires
        x == t,
    ensures
        looks_like(x, t),
{
}

proof fn lemma_format_flag_text(x: Seq<char>)
    ensures
        is_format_flag(x) <==> x == "-f"@,
{
    reveal_strlit("-f");
    if is_format_flag(x) {
        assert(x =~= "-f"@);
    }
}

/// A user-supplied argument: for the shipped-format check it must not be
/// `-f` when something follows it; for the key-frame check it must not
/// be the key-frame option.
spec fn user_ok(c: ArgCheck, x: Seq<char>, followed: bool) -> bool {
    match c {
        ArgCheck::Shipped => followed ==> x != "-f"@,
        ArgCheck::NoPreviewFormat => true,
        ArgCheck::NoKeyFrames => x != "-force_key_frames"@,
    }
}

proof fn lemma_pairs_concat(c: ArgCheck, a: Seq<Seq<char>>, b: Seq<Seq<char>>)
    requires
        pairs_ok(c, a),
        pairs_ok(c, b),
        a.len() > 0 && b.len() > 0 ==> pair_ok(c, a.last(), b[0]),
    ensures
        pairs_ok(c, a + b),
{
    let s = a + b;
    assert forall|i: int| 0 <= i < s.len() - 1 implies #[trigger] pair_at(c, s, i) by {
        if i < a.len() - 1 {
            assert(s[i] == a[i] && s[i + 1] == a[i + 1]);
            assert(pair_at(c, a, i));
        } else if i == a.len() - 1 {
            assert(s[i] == a.last() && s[i + 1] == b[0]);
        } else {
            assert(s[i] == b[i - a.len()] && s[i + 1] == b[i + 1 - a.len()]);
            assert(pair_at(c, b, i - a.len()));
        }
    }
}

/// Decimal text starts with a digit.
proof fn lemma_dec_first(n: nat)
    ensures
        dec(n).len() >= 1,
        dec(n)[0] != '-',
        dec(n)[0] != 'm',
        dec(n)[0] != 'u',
        kbit(n)[0] == dec(n)[0],
        kbit(n).len() >= 2,
    decreases n,
{
    reveal_strlit("k");
    if n >= 10 {
        lemma_dec_first(n / 10);
        assert(dec(n)[0] == dec(n / 10)[0]);
    } else {
        assert(dec(n)[0] == crate::text::digit_char(n));
        assert((n + 48) as u8 != 45u8);
        assert((n + 48) as u8 != 109u8);
        assert((n + 48) as u8 != 117u8);
    }
}

/// Text that starts with a known prefix starts with its characters.
proof fn lemma_prefix_chars(a: Seq<char>, b: Seq<char>)
    requires
        a.len() >= 3,
    ensures
        (a + b)[0] == a[0],
        (a + b)[1] == a[1],
        (a + b)[2] == a[2],
        (a + b).len() >= a.len(),
{
}

/// The texts the checks look for, spelled out.
proof fn lemma_targets()
    ensures
        "mpjpeg"@.len() == 6,
        "mpjpeg"@[0] == 'm',
        "mpjpeg"@[1] == 'p',
        "mpjpeg"@[2] == 'j',
        "-force_key_frames"@.len() == 17,
        "-force_key_frames"@[0] == '-',
        "-force_key_frames"@[1] == 'f',
        "-force_key_frames"@[2] == 'o',
{
    reveal_strlit("mpjpeg");
    reveal_strlit("-force_key_frames");
}

/// A first argument that no check objects to after any other argument.
spec fn starts_safely(y: Seq<char>) -> bool {
    !is_format_flag(y) && differs(y, "mpjpeg"@) && differs(y, "-force_key_frames"@)
}

/// A last argument that no check objects to before a safe start.
spec fn ends_safely(c: ArgCheck, x: Seq<char>) -> bool {
    match c {
        ArgCheck::Shipped => !is_format_flag(x),
        ArgCheck::NoPreviewFormat => true,
        ArgCheck::NoKeyFrames => differs(x, "-force_key_frames"@),
    }
}

proof fn lemma_user_ends_safely(c: ArgCheck, x: Seq<char>)
    requires
        user_ok(c, x, true),
    ensures
        ends_safely(c, x),
{
    lemma_format_flag_text(x);
}

/// Decimal text (and a rate in kbit) is safe anywhere.
proof fn lemma_dec_safe(c: ArgCheck, n: nat)
    ensures
        starts_safely(dec(n)),
        ends_safely(c, dec(n)),
        starts_safely(kbit(n)),
        ends_safely(c, kbit(n)),
{
    lemma_dec_first(n);
    lemma_targets();
}

/// Text behind a literal prefix of three or more characters is as safe
/// as the prefix.
proof fn lemma_prefixed_safe(c: ArgCheck, a: Seq<char>, b: Seq<char>)
    requires
        a.len() >= 3,
        a[0] != '-' || a[1] != 'f' || a[2] != 'o',
        a[0] != 'm' || a[1] != 'p' || a[2] != 'j',
    ensures
        starts_safely(a + b),
        ends_safely(c, a + b),
{
    lemma_prefix_chars(a, b);
    lemma_targets();
}

proof fn lemma_head_pairs(c: ArgCheck)
    ensures
        pairs_ok(c, live_head()),
        live_head().len() > 0,
        starts_safely(live_head()[0]),
        ends_safely(c, live_head().last()),
{
    reveal_strlit("-hide_banner");
    reveal_strlit("-loglevel");
    reveal_strlit("info");
    reveal_strlit("-nostats");
    reveal_strlit("-progress");
    reveal_strlit("pipe:1");
    reveal_strlit("-stats_period");
    reveal_strlit("1");
    lemma_targets();
}

/// The logging and progress options opening the live command line.
spec fn live_head() -> Seq<Seq<char>> {
    seq![
        "-hide_banner"@,
        "-loglevel"@,
        "info"@,
        "-nostats"@,
        "-progress"@,
        "pipe:1"@,
        "-stats_period"@,
        "1"@,
    ]
}

proof fn lemma_video_input_pairs(
    c: ArgCheck,
    source: CaptureSource,
    fps: nat,
    pipe: Option<(Seq<char>, nat, nat)>,
)
    requires
        pipe matches Some((path, _, _)) ==> user_ok(c, path, true),
    ensures
        spec_video_input(source, fps, pipe) matches Some(s) ==> {
            &&& pairs_ok(c, s)
            &&& s.len() > 0
            &&& starts_safely(s[0]) || s[0] == "-f"@
            &&& ends_safely(c, s.last())
        },
{
    reveal_strlit("-f");
    reveal_strlit("rawvideo");
    reveal_strlit("-pix_fmt");
    reveal_strlit("bgra");
    reveal_strlit("-video_size");
    reveal_strlit("x");
    reveal_strlit("-framerate");
    reveal_strlit("-thread_queue_size");
    reveal_strlit("64");
    reveal_strlit("-i");
    reveal_strlit("lavfi");
    reveal_strlit("ddagrab=output_idx=");
    lemma_targets();
    lemma_dec_safe(c, fps);
    match pipe {
        Some((path, w, h)) => {
            lemma_user_ends_safely(c, path);
            lemma_dec_first(w);
            let size = dec(w) + "x"@ + dec(h);
            assert(size[0] == dec(w)[0]);
            assert(size.len() >= 3);
        },
        None => {
            if let CaptureSource::Monitor { index } = source {
                let rest = dec(index as nat) + ":framerate="@ + dec(fps);
                lemma_prefixed_safe(c, "ddagrab=output_idx="@, rest);
                assert("ddagrab=output_idx="@ + dec(index as nat) + ":framerate="@ + dec(fps)
                    =~= "ddagrab=output_idx="@ + rest);
            }
        },
    }
}


proof fn lemma_audio_input_pairs(c: ArgCheck, audio: AudioSource)
    requires
        audio matches AudioSource::Pipe(p) ==> user_ok(c, p@, true),
    ensures
        pairs_ok(c, spec_audio_input(audio)),
        spec_audio_input(audio).len() > 0,
        starts_safely(spec_audio_input(audio)[0]) || spec_audio_input(audio)[0] == "-f"@,
        ends_safely(c, spec_audio_input(audio).last()),
{
    reveal_strlit("-thread_queue_size");
    reveal_strlit("512");
    reveal_strlit("-f");
    reveal_strlit("f32le");
    reveal_strlit("-ar");
    reveal_strlit("48000");
    reveal_strlit("-ac");
    reveal_strlit("2");
    reveal_strlit("-channel_layout");
    reveal_strlit("stereo");
    reveal_strlit("-i");
    reveal_strlit("lavfi");
    reveal_strlit("anullsrc=r=48000:cl=stereo");
    lemma_targets();
    if let AudioSource::Pipe(p) = audio {
        lemma_user_ends_safely(c, p@);
    }
}

proof fn lemma_filter_complex_pairs(c: ArgCheck, vf: Seq<char>, replay: bool, preview: bool)
    ensures
        pairs_ok(c, seq!["-filter_complex"@, spec_filter_complex(vf, replay, preview)]),
        starts_safely("-filter_complex"@),
        ends_safely(c, spec_filter_complex(vf, replay, preview)),
{
    reveal_strlit("-filter_complex");
    reveal_strlit("[0:v]");
    lemma_targets();
    let n: nat = 1 + (if replay { 1nat } else { 0nat }) + (if preview { 1nat } else { 0nat });
    let rest = vf + ",split="@ + dec(n) + "[vw]"@ + (if replay { "[vr]"@ } else { Seq::empty() }) + (
    if preview {
        "[vp0];[vp0]"@ + PREVIEW_TAIL@ + "[vp]"@
    } else {
        Seq::empty()
    }) + (if replay {
        ";[1:a]"@ + AUDIO_FILTER@ + ",asplit=2[aw][ar]"@
    } else {
        Seq::empty()
    });
    assert(spec_filter_complex(vf, replay, preview) =~= "[0:v]"@ + rest);
    lemma_prefixed_safe(c, "[0:v]"@, rest);
}

proof fn lemma_video_filter_safe(c: ArgCheck, piped: bool, tail: Seq<char>, resolution: nat)
    requires
        tail == spec_scale_tail(resolution) || tail == PREVIEW_TAIL@,
    ensures
        starts_safely(spec_video_filter(piped, tail)),
        ends_safely(c, spec_video_filter(piped, tail)),
{
    reveal_strlit("scale='min(iw,");
    reveal_strlit("hwdownload,format=bgra,");
    reveal_strlit("scale=640:-2:flags=bilinear,format=yuvj420p");
    lemma_targets();
    if tail == spec_scale_tail(resolution) {
        let rest = dec(box_width(resolution)) + ")':'min(ih,"@ + dec(box_height(resolution))
            + ")':force_original_aspect_ratio=decrease:force_divisible_by=2:flags=bilinear,format=yuv420p"@;
        assert(tail =~= "scale='min(iw,"@ + rest);
        lemma_prefixed_safe(c, "scale='min(iw,"@, rest);
    }
    lemma_prefixed_safe(c, "hwdownload,format=bgra,"@, tail);
}

proof fn lemma_live_encoder_pairs(c: ArgCheck, enc: Encoder, fps: nat, kbps: nat)
    ensures
        pairs_ok(c, spec_live_encoder_args(enc, fps, kbps)),
        starts_safely(spec_live_encoder_args(enc, fps, kbps)[0]),
        ends_safely(c, spec_live_encoder_args(enc, fps, kbps).last()),
{
    reveal_strlit("-c:v");
    reveal_strlit("libx264");
    reveal_strlit("h264_nvenc");
    reveal_strlit("h264_amf");
    reveal_strlit("-preset");
    reveal_strlit("veryfast");
    reveal_strlit("-tune");
    reveal_strlit("zerolatency");
    reveal_strlit("p1");
    reveal_strlit("ull");
    reveal_strlit("-rc");
    reveal_strlit("cbr");
    reveal_strlit("-zerolatency");
    reveal_strlit("1");
    reveal_strlit("-delay");
    reveal_strlit("0");
    reveal_strlit("-usage");
    reveal_strlit("lowlatency");
    reveal_strlit("-quality");
    reveal_strlit("speed");
    reveal_strlit("-forced_idr");
    reveal_strlit("-profile:v");
    reveal_strlit("main");
    reveal_strlit("baseline");
    reveal_strlit("-bf");
    reveal_strlit("-g");
    reveal_strlit("-r");
    reveal_strlit("-b:v");
    reveal_strlit("-maxrate");
    reveal_strlit("-bufsize");
    lemma_targets();
    lemma_dec_safe(c, 2 * fps);
    lemma_dec_safe(c, fps);
    lemma_dec_safe(c, kbps);
    lemma_dec_safe(c, live_maxrate(enc, kbps));
    lemma_dec_safe(c, live_bufsize(enc, kbps));
    let a = seq!["-c:v"@, encoder_name(enc)];
    let b = seq!["-profile:v"@, live_profile(enc), "-bf"@, "0"@];
    let d = seq![
        "-g"@,
        dec(2 * fps),
        "-r"@,
        dec(fps),
        "-b:v"@,
        kbit(kbps),
        "-maxrate"@,
        kbit(live_maxrate(enc, kbps)),
        "-bufsize"@,
        kbit(live_bufsize(enc, kbps)),
    ];
    assert(pairs_ok(c, a));
    assert(pairs_ok(c, live_tuning(enc)));
    assert(pairs_ok(c, b));
    assert(pairs_ok(c, d));
    lemma_pairs_concat(c, a, live_tuning(enc));
    lemma_pairs_concat(c, a + live_tuning(enc), b);
    lemma_pairs_concat(c, a + live_tuning(enc) + b, d);
}


proof fn lemma_live_output_pairs(
    c: ArgCheck,
    vf: Seq<char>,
    replay: bool,
    preview: bool,
    enc: Encoder,
    fps: nat,
    kbps: nat,
    whip_url: Seq<char>,
)
    requires
        starts_safely(vf),
        ends_safely(c, vf),
        user_ok(c, whip_url, replay || preview),
        c == ArgCheck::NoKeyFrames ==> enc != Encoder::Amf,
    ensures
        pairs_ok(c, spec_live_output(vf, replay, preview, enc, fps, kbps, whip_url)),
        spec_live_output(vf, replay, preview, enc, fps, kbps, whip_url).len() > 0,
        starts_safely(spec_live_output(vf, replay, preview, enc, fps, kbps, whip_url)[0]),
        spec_live_output(vf, replay, preview, enc, fps, kbps, whip_url).last() == whip_url,
{
    reveal_strlit("-map");
    reveal_strlit("[vw]");
    reveal_strlit("0:v");
    reveal_strlit("[aw]");
    reveal_strlit("1:a");
    reveal_strlit("-vf");
    reveal_strlit("-af");
    reveal_strlit("aresample=async=1:first_pts=0");
    reveal_strlit("-force_key_frames");
    reveal_strlit("expr:gte(t,n_forced*2)");
    reveal_strlit("-c:a");
    reveal_strlit("libopus");
    reveal_strlit("-b:a");
    reveal_strlit("96k");
    reveal_strlit("-ar");
    reveal_strlit("48000");
    reveal_strlit("-ac");
    reveal_strlit("2");
    reveal_strlit("-ts_buffer_size");
    reveal_strlit("4194304");
    reveal_strlit("-f");
    reveal_strlit("whip");
    lemma_targets();
    let split = replay || preview;
    let m = seq![
        "-map"@,
        if split { "[vw]"@ } else { "0:v"@ },
        "-map"@,
        if replay { "[aw]"@ } else { "1:a"@ },
    ];
    let v: Seq<Seq<char>> = if split { Seq::empty() } else { seq!["-vf"@, vf] };
    let au: Seq<Seq<char>> = if replay { Seq::empty() } else { seq!["-af"@, AUDIO_FILTER@] };
    let e = spec_live_encoder_args(enc, fps, kbps);
    let k: Seq<Seq<char>> = if enc == Encoder::Amf {
        seq!["-force_key_frames"@, AMF_KEY_FRAMES@]
    } else {
        Seq::empty()
    };
    let t = seq![
        "-c:a"@,
        "libopus"@,
        "-b:a"@,
        "96k"@,
        "-ar"@,
        "48000"@,
        "-ac"@,
        "2"@,
        "-ts_buffer_size"@,
        "4194304"@,
        "-f"@,
        "whip"@,
        whip_url,
    ];
    lemma_live_encoder_pairs(c, enc, fps, kbps);
    if c != ArgCheck::NoKeyFrames {
        lemma_format_flag_text(whip_url);
    }
    assert(pairs_ok(c, m));
    assert(pairs_ok(c, v));
    assert(pairs_ok(c, au));
    assert(pairs_ok(c, k));
    assert(pairs_ok(c, t));
    lemma_pairs_concat(c, m, v);
    lemma_pairs_concat(c, m + v, au);
    lemma_pairs_concat(c, m + v + au, e);
    lemma_pairs_concat(c, m + v + au + e, k);
    lemma_pairs_concat(c, m + v + au + e + k, t);
}


proof fn lemma_replay_output_pairs(c: ArgCheck, run: ReplayRun, enc: Encoder, fps: nat, kbps: nat, followed: bool)
    requires
        user_ok(c, run.list@, true),
        user_ok(c, run.pattern@, followed),
    ensures
        pairs_ok(c, spec_replay_output(run, enc, fps, kbps)),
        spec_replay_output(run, enc, fps, kbps).len() > 0,
        starts_safely(spec_replay_output(run, enc, fps, kbps)[0]),
        spec_replay_output(run, enc, fps, kbps).last() == run.pattern@,
{
    reveal_strlit("-map");
    reveal_strlit("[vr]");
    reveal_strlit("[ar]");
    reveal_strlit("-c:v");
    reveal_strlit("libx264");
    reveal_strlit("h264_nvenc");
    reveal_strlit("h264_amf");
    reveal_strlit("-preset");
    reveal_strlit("veryfast");
    reveal_strlit("p5");
    reveal_strlit("-tune");
    reveal_strlit("hq");
    reveal_strlit("-rc");
    reveal_strlit("vbr");
    reveal_strlit("-maxrate");
    reveal_strlit("-bufsize");
    reveal_strlit("-usage");
    reveal_strlit("transcoding");
    reveal_strlit("-quality");
    reveal_strlit("quality");
    reveal_strlit("vbr_peak");
    reveal_strlit("-profile:v");
    reveal_strlit("high");
    reveal_strlit("-pix_fmt");
    reveal_strlit("yuv420p");
    reveal_strlit("-g");
    reveal_strlit("-r");
    reveal_strlit("-b:v");
    reveal_strlit("-f");
    reveal_strlit("-c:a");
    reveal_strlit("aac");
    reveal_strlit("-b:a");
    reveal_strlit("160k");
    reveal_strlit("-ar");
    reveal_strlit("48000");
    reveal_strlit("-ac");
    reveal_strlit("2");
    reveal_strlit("segment");
    reveal_strlit("-segment_time");
    reveal_strlit("-segment_format");
    reveal_strlit("mp4");
    reveal_strlit("-segment_format_options");
    reveal_strlit("movflags=+frag_keyframe+empty_moov");
    reveal_strlit("-reset_timestamps");
    reveal_strlit("1");
    reveal_strlit("-segment_list");
    reveal_strlit("-segment_list_type");
    reveal_strlit("csv");
    reveal_strlit("-segment_list_flags");
    reveal_strlit("+live");
    lemma_targets();
    lemma_user_ends_safely(c, run.list@);
    lemma_dec_safe(c, 2 * fps);
    lemma_dec_safe(c, fps);
    lemma_dec_safe(c, kbps);
    lemma_dec_safe(c, kbps * 5 / 4);
    lemma_dec_safe(c, kbps * 2);
    lemma_dec_safe(c, SEGMENT_SECS as nat);
    let head = seq!["-map"@, "[vr]"@, "-map"@, "[ar]"@];
    let ea = seq!["-c:v"@, encoder_name(enc)];
    let et = replay_tuning(enc, kbps);
    let ec = seq![
        "-profile:v"@,
        "high"@,
        "-pix_fmt"@,
        "yuv420p"@,
        "-g"@,
        dec(2 * fps),
        "-r"@,
        dec(fps),
        "-b:v"@,
        kbit(kbps),
    ];
    assert(pairs_ok(c, head));
    assert(pairs_ok(c, ea));
    assert(pairs_ok(c, et));
    assert(pairs_ok(c, ec));
    assert(pairs_ok(c, spec_segment_tail(run)));
    lemma_pairs_concat(c, ea, et);
    lemma_pairs_concat(c, ea + et, ec);
    assert(spec_replay_encoder_args(enc, fps, kbps) == ea + et + ec);
    lemma_pairs_concat(c, head, spec_replay_encoder_args(enc, fps, kbps));
    lemma_pairs_concat(c, head + spec_replay_encoder_args(enc, fps, kbps), spec_segment_tail(run));
}

proof fn lemma_preview_output_pairs(c: ArgCheck, path: Seq<char>)
    requires
        c != ArgCheck::NoPreviewFormat,
        user_ok(c, path, false),
    ensures
        pairs_ok(c, spec_preview_output(path)),
        starts_safely(spec_preview_output(path)[0]),
{
    reveal_strlit("-map");
    reveal_strlit("[vp]");
    reveal_strlit("-an");
    reveal_strlit("-c:v");
    reveal_strlit("mjpeg");
    reveal_strlit("-q:v");
    reveal_strlit("7");
    reveal_strlit("-r");
    reveal_strlit("-f");
    reveal_strlit("mpjpeg");
    lemma_targets();
    lemma_dec_safe(c, PREVIEW_FPS as nat);
}


#[verifier::spinoff_prover]
#[verifier::rlimit(30)]
proof fn lemma_build_pairs(
    c: ArgCheck,
    settings: StreamSettings,
    whip_url: Seq<char>,
    audio: AudioSource,
    replay: Option<ReplayRun>,
    pipe: Option<(Seq<char>, nat, nat)>,
    enc: Encoder,
    preview: Option<Seq<char>>,
)
    requires
        pipe matches Some((path, _, _)) ==> user_ok(c, path, true),
        audio matches AudioSource::Pipe(p) ==> user_ok(c, p@, true),
        user_ok(c, whip_url, replay is Some || preview is Some),
        replay matches Some(r) ==> user_ok(c, r.list@, true) && user_ok(c, r.pattern@, preview is Some),
        preview matches Some(p) ==> user_ok(c, p, false),
        c == ArgCheck::NoKeyFrames ==> enc != Encoder::Amf,
        c == ArgCheck::NoPreviewFormat ==> preview is None,
    ensures
        spec_build_args(settings, whip_url, audio, replay, pipe, enc, preview) matches Some(args)
            ==> pairs_ok(c, args),
{
    let fps = effective_fps(settings);
    let kbps = effective_kbps(settings);
    let vf = spec_video_filter(pipe is Some, spec_scale_tail(settings.resolution as nat));
    let split = replay is Some || preview is Some;
    lemma_video_input_pairs(c, settings.source, fps, pipe);
    lemma_video_filter_safe(c, pipe is Some, spec_scale_tail(settings.resolution as nat), settings.resolution as nat);
    if let Some(input) = spec_video_input(settings.source, fps, pipe) {
        let head = live_head();
        let au = spec_audio_input(audio);
        let fc: Seq<Seq<char>> = if split {
            seq!["-filter_complex"@, spec_filter_complex(vf, replay is Some, preview is Some)]
        } else {
            Seq::empty()
        };
        let live = spec_live_output(vf, replay is Some, preview is Some, enc, fps, kbps, whip_url);
        let rep: Seq<Seq<char>> = match replay {
            Some(run) => spec_replay_output(run, enc, fps, kbps),
            None => Seq::empty(),
        };
        let pre: Seq<Seq<char>> = match preview {
            Some(p) => spec_preview_output(p),
            None => Seq::empty(),
        };
        lemma_targets();
        reveal_strlit("-f");
        lemma_format_flag_text("-f"@);
        lemma_head_pairs(c);
        lemma_audio_input_pairs(c, audio);
        lemma_filter_complex_pairs(c, vf, replay is Some, preview is Some);
        lemma_live_output_pairs(c, vf, replay is Some, preview is Some, enc, fps, kbps, whip_url);
        if split {
            lemma_user_ends_safely(c, whip_url);
        }
        if let Some(run) = replay {
            lemma_replay_output_pairs(c, run, enc, fps, kbps, preview is Some);
            if preview is Some {
                lemma_user_ends_safely(c, run.pattern@);
            }
        }
        if let Some(p) = preview {
            lemma_preview_output_pairs(c, p);
        }
        assert(pair_ok(c, head.last(), input[0]));
        lemma_pairs_concat(c, head, input);
        assert(pair_ok(c, (head + input).last(), au[0]));
        lemma_pairs_concat(c, head + input, au);
        lemma_pairs_concat(c, head + input + au, fc);
        let upto_fc = head + input + au + fc;
        assert(upto_fc.last() == if split { fc.last() } else { au.last() });
        lemma_pairs_concat(c, upto_fc, live);
        lemma_pairs_concat(c, upto_fc + live, rep);
        let upto_rep = upto_fc + live + rep;
        assert(upto_rep.last() == if replay is Some { rep.last() } else { live.last() });
        lemma_pairs_concat(c, upto_rep, pre);
    }
}


proof fn lemma_pairs_shipped(args: Seq<Seq<char>>)
    requires
        pairs_ok(ArgCheck::Shipped, args),
    ensures
        formats_shipped(args),
{
    assert forall|i: int| 0 <= i < args.len() - 1 && #[trigger] args[i] == "-f"@ implies shipped_format(
        args[i + 1],
    ) by {
        lemma_format_flag_text(args[i]);
        assert(pair_at(ArgCheck::Shipped, args, i));
    }
}

proof fn lemma_has_arg_concat(a: Seq<Seq<char>>, b: Seq<Seq<char>>, x: Seq<char>)
    requires
        has_arg(a, x) || has_arg(b, x),
    ensures
        has_arg(a + b, x),
{
    if has_arg(a, x) {
        let i = choose|i: int| 0 <= i < a.len() && #[trigger] a[i] == x;
        assert((a + b)[i] == x);
    } else {
        let i = choose|i: int| 0 <= i < b.len() && #[trigger] b[i] == x;
        assert((a + b)[a.len() + i] == x);
    }
}

proof fn lemma_has_option_suffix(a: Seq<Seq<char>>, b: Seq<Seq<char>>, flag: Seq<char>, value: Seq<char>)
    requires
        has_option(b, flag, value),
    ensures
        has_option(a + b, flag, value),
{
    let i = choose|i: int| 0 <= i < b.len() - 1 && #[trigger] b[i] == flag && b[i + 1] == value;
    assert((a + b)[a.len() + i] == flag && (a + b)[a.len() + i + 1] == value);
}

/// The command lines only use container formats that the bundled ffmpeg
/// ships: every `-f` of the live command line (with or without its
/// replay and preview outputs) and of the setup preview names one of
/// them. Paths and the WHIP endpoint are passed through as given; the
/// law leaves out the command lines where one of them is itself `-f`
/// and another argument follows it.
pub proof fn law_only_shipped_formats(
    settings: StreamSettings,
    whip_url: Seq<char>,
    audio: AudioSource,
    replay: Option<ReplayRun>,
    pipe: Option<(Seq<char>, nat, nat)>,
    enc: Encoder,
    preview: Option<Seq<char>>,
)
    requires
        replay is Some || preview is Some ==> whip_url != "-f"@,
        audio matches AudioSource::Pipe(p) ==> p@ != "-f"@,
        replay matches Some(r) ==> r.list@ != "-f"@ && (preview is Some ==> r.pattern@ != "-f"@),
        pipe matches Some((path, _, _)) ==> path != "-f"@,
    ensures
        spec_build_args(settings, whip_url, audio, replay, pipe, enc, preview) matches Some(args)
            ==> formats_shipped(args),
        spec_preview_args(settings.source, pipe) matches Some(args) ==> formats_shipped(args),
{
    lemma_build_pairs(ArgCheck::Shipped, settings, whip_url, audio, replay, pipe, enc, preview);
    if let Some(args) = spec_build_args(settings, whip_url, audio, replay, pipe, enc, preview) {
        lemma_pairs_shipped(args);
    }
    let c = ArgCheck::Shipped;
    lemma_video_input_pairs(c, settings.source, PREVIEW_FPS as nat, pipe);
    if let Some(input) = spec_video_input(settings.source, PREVIEW_FPS as nat, pipe) {
        reveal_strlit("-hide_banner");
        reveal_strlit("-loglevel");
        reveal_strlit("error");
        reveal_strlit("-nostats");
        reveal_strlit("-vf");
        reveal_strlit("-q:v");
        reveal_strlit("7");
        reveal_strlit("-r");
        reveal_strlit("-f");
        reveal_strlit("mpjpeg");
        lemma_targets();
        lemma_dec_safe(c, PREVIEW_FPS as nat);
        lemma_video_filter_safe(c, pipe is Some, PREVIEW_TAIL@, 0);
        lemma_format_flag_text("-f"@);
        let head = seq!["-hide_banner"@, "-loglevel"@, "error"@, "-nostats"@];
        let tail = seq![
            "-vf"@,
            spec_video_filter(pipe is Some, PREVIEW_TAIL@),
            "-q:v"@,
            "7"@,
            "-r"@,
            dec(PREVIEW_FPS as nat),
            "-f"@,
            "mpjpeg"@,
            "pipe:1"@,
        ];
        assert(pairs_ok(c, head));
        assert(pairs_ok(c, tail));
        lemma_pairs_concat(c, head, input);
        lemma_pairs_concat(c, head + input, tail);
        lemma_pairs_shipped(head + input + tail);
    }
}

/// Only AMF live output gets the periodic key-frame option (ffmpeg hands
/// AMF the IDR requests that `-forced_idr` needs only through it); the
/// other encoders never do. The law leaves out, for the other encoders,
/// the command lines where a path or the WHIP endpoint is itself that
/// option.
pub proof fn law_key_frames_only_for_amf(
    settings: StreamSettings,
    whip_url: Seq<char>,
    audio: AudioSource,
    replay: Option<ReplayRun>,
    pipe: Option<(Seq<char>, nat, nat)>,
    enc: Encoder,
    preview: Option<Seq<char>>,
)
    requires
        enc != Encoder::Amf ==> {
            &&& whip_url != "-force_key_frames"@
            &&& audio matches AudioSource::Pipe(p) ==> p@ != "-force_key_frames"@
            &&& replay matches Some(r) ==> r.list@ != "-force_key_frames"@ && r.pattern@
                != "-force_key_frames"@
            &&& pipe matches Some((path, _, _)) ==> path != "-force_key_frames"@
            &&& preview matches Some(p) ==> p != "-force_key_frames"@
        },
    ensures
        spec_build_args(settings, whip_url, audio, replay, pipe, enc, preview) matches Some(args)
            ==> (has_arg(args, "-force_key_frames"@) <==> enc == Encoder::Amf),
{
    let kf = "-force_key_frames"@;
    if let Some(args) = spec_build_args(settings, whip_url, audio, replay, pipe, enc, preview) {
        let fps = effective_fps(settings);
        let kbps = effective_kbps(settings);
        let vf = spec_video_filter(pipe is Some, spec_scale_tail(settings.resolution as nat));
        let split = replay is Some || preview is Some;
        let input = spec_video_input(settings.source, fps, pipe)->0;
        if enc == Encoder::Amf {
            let m = seq![
                "-map"@,
                if split { "[vw]"@ } else { "0:v"@ },
                "-map"@,
                if replay is Some { "[aw]"@ } else { "1:a"@ },
            ];
            let v: Seq<Seq<char>> = if split { Seq::empty() } else { seq!["-vf"@, vf] };
            let au: Seq<Seq<char>> = if replay is Some {
                Seq::empty()
            } else {
                seq!["-af"@, AUDIO_FILTER@]
            };
            let e = spec_live_encoder_args(enc, fps, kbps);
            let k = seq![kf, AMF_KEY_FRAMES@];
            let t = seq![
                "-c:a"@,
                "libopus"@,
                "-b:a"@,
                "96k"@,
                "-ar"@,
                "48000"@,
                "-ac"@,
                "2"@,
                "-ts_buffer_size"@,
                "4194304"@,
                "-f"@,
                "whip"@,
                whip_url,
            ];
            let live = spec_live_output(vf, replay is Some, preview is Some, enc, fps, kbps, whip_url);
            assert(k[0] == kf);
            lemma_has_arg_concat(m + v + au + e, k, kf);
            lemma_has_arg_concat(m + v + au + e + k, t, kf);
            assert(live == m + v + au + e + k + t);
            let fc: Seq<Seq<char>> = if split {
                seq!["-filter_complex"@, spec_filter_complex(vf, replay is Some, preview is Some)]
            } else {
                Seq::empty()
            };
            let before = live_head() + input + spec_audio_input(audio) + fc;
            lemma_has_arg_concat(before, live, kf);
            let rep: Seq<Seq<char>> = match replay {
                Some(run) => spec_replay_output(run, enc, fps, kbps),
                None => Seq::empty(),
            };
            let pre: Seq<Seq<char>> = match preview {
                Some(p) => spec_preview_output(p),
                None => Seq::empty(),
            };
            lemma_has_arg_concat(before + live, rep, kf);
            lemma_has_arg_concat(before + live + rep, pre, kf);
        } else {
            lemma_build_pairs(ArgCheck::NoKeyFrames, settings, whip_url, audio, replay, pipe, enc, preview);
            lemma_head_pairs(ArgCheck::NoKeyFrames);
            assert(args.len() >= 2);
            if has_arg(args, kf) {
                let i = choose|i: int| 0 <= i < args.len() && #[trigger] args[i] == kf;
                lemma_looks_like(args[i], kf);
                if i < args.len() - 1 {
                    assert(pair_at(ArgCheck::NoKeyFrames, args, i));
                } else {
                    assert(pair_at(ArgCheck::NoKeyFrames, args, i - 1));
                }
            }
        }
    }
}

/// The live command line has an MJPEG preview output exactly when a
/// preview pipe is given.
pub proof fn law_preview_output_only_when_asked(
    settings: StreamSettings,
    whip_url: Seq<char>,
    audio: AudioSource,
    replay: Option<ReplayRun>,
    pipe: Option<(Seq<char>, nat, nat)>,
    enc: Encoder,
    preview: Option<Seq<char>>,
)
    ensures
        spec_build_args(settings, whip_url, audio, replay, pipe, enc, preview) matches Some(args)
            ==> (has_option(args, "-f"@, "mpjpeg"@) <==> preview is Some),
{
    if let Some(args) = spec_build_args(settings, whip_url, audio, replay, pipe, enc, preview) {
        match preview {
            Some(p) => {
                let out = spec_preview_output(p);
                assert(out[9] == "-f"@ && out[10] == "mpjpeg"@);
                let fps = effective_fps(settings);
                let kbps = effective_kbps(settings);
                let vf = spec_video_filter(pipe is Some, spec_scale_tail(settings.resolution as nat));
                let input = spec_video_input(settings.source, fps, pipe)->0;
                let fc = seq!["-filter_complex"@, spec_filter_complex(vf, replay is Some, true)];
                let live = spec_live_output(vf, replay is Some, true, enc, fps, kbps, whip_url);
                let rep: Seq<Seq<char>> = match replay {
                    Some(run) => spec_replay_output(run, enc, fps, kbps),
                    None => Seq::empty(),
                };
                lemma_has_option_suffix(
                    live_head() + input + spec_audio_input(audio) + fc + live + rep,
                    out,
                    "-f"@,
                    "mpjpeg"@,
                );
            },
            None => {
                lemma_build_pairs(ArgCheck::NoPreviewFormat, settings, whip_url, audio, replay, pipe, enc, preview);
                if has_option(args, "-f"@, "mpjpeg"@) {
                    let i = choose|i: int|
                        0 <= i < args.len() - 1 && #[trigger] args[i] == "-f"@ && args[i + 1] == "mpjpeg"@;
                    lemma_format_flag_text(args[i]);
                    lemma_looks_like(args[i + 1], "mpjpeg"@);
                    assert(pair_at(ArgCheck::NoPreviewFormat, args, i));
                }
            },
        }
    }
}


/// No argument is `t`.
spec fn avoids(args: Seq<Seq<char>>, t: Seq<char>) -> bool {
    forall|i: int| 0 <= i < args.len() ==> #[trigger] differs(args[i], t)
}

proof fn lemma_avoids_concat(a: Seq<Seq<char>>, b: Seq<Seq<char>>, t: Seq<char>)
    requires
        avoids(a, t),
        avoids(b, t),
    ensures
        avoids(a + b, t),
{
    let s = a + b;
    assert forall|i: int| 0 <= i < s.len() implies #[trigger] differs(s[i], t) by {
        if i < a.len() {
            assert(s[i] == a[i]);
        } else {
            assert(s[i] == b[i - a.len()]);
        }
    }
}

proof fn lemma_avoids_has_arg(args: Seq<Seq<char>>, t: Seq<char>)
    requires
        avoids(args, t),
    ensures
        !has_arg(args, t),
{
    if has_arg(args, t) {
        let i = choose|i: int| 0 <= i < args.len() && #[trigger] args[i] == t;
        lemma_looks_like(args[i], t);
        assert(differs(args[i], t));
    }
}

proof fn lemma_option_in(a: Seq<Seq<char>>, b: Seq<Seq<char>>, c: Seq<Seq<char>>, i: int)
    requires
        0 <= i < b.len() - 1,
    ensures
        has_option(a + b + c, b[i], b[i + 1]),
{
    let s = a + b + c;
    assert(s[a.len() + i] == b[i] && s[a.len() + i + 1] == b[i + 1]);
}

/// The live encoder options: AMF uses the `lowlatency` usage, never the
/// `ultralowlatency` preset (it skips the periodic IDR frames that late
/// WHEP viewers need) nor the header-spacing and async-depth options,
/// requests IDR frames and uses the main profile; x264 and NVENC keep
/// the baseline profile, and only AMF requests forced IDR frames.
pub proof fn law_live_encoder_profiles(enc: Encoder, fps: nat, kbps: nat)
    ensures
        ({
            let args = spec_live_encoder_args(enc, fps, kbps);
            &&& enc == Encoder::Amf ==> {
                &&& has_option(args, "-usage"@, "lowlatency"@)
                &&& has_option(args, "-forced_idr"@, "1"@)
                &&& has_option(args, "-profile:v"@, "main"@)
                &&& !has_arg(args, "ultralowlatency"@)
                &&& !has_arg(args, "-header_spacing"@)
                &&& !has_arg(args, "-async_depth"@)
            }
            &&& enc != Encoder::Amf ==> {
                &&& has_option(args, "-profile:v"@, "baseline"@)
                &&& !has_arg(args, "-forced_idr"@)
            }
        }),
{
    reveal_strlit("-c:v");
    reveal_strlit("libx264");
    reveal_strlit("h264_nvenc");
    reveal_strlit("h264_amf");
    reveal_strlit("-preset");
    reveal_strlit("veryfast");
    reveal_strlit("-tune");
    reveal_strlit("zerolatency");
    reveal_strlit("p1");
    reveal_strlit("ull");
    reveal_strlit("-rc");
    reveal_strlit("cbr");
    reveal_strlit("-zerolatency");
    reveal_strlit("1");
    reveal_strlit("-delay");
    reveal_strlit("0");
    reveal_strlit("-usage");
    reveal_strlit("lowlatency");
    reveal_strlit("-quality");
    reveal_strlit("speed");
    reveal_strlit("-forced_idr");
    reveal_strlit("-profile:v");
    reveal_strlit("main");
    reveal_strlit("baseline");
    reveal_strlit("-bf");
    reveal_strlit("-g");
    reveal_strlit("-r");
    reveal_strlit("-b:v");
    reveal_strlit("-maxrate");
    reveal_strlit("-bufsize");
    reveal_strlit("ultralowlatency");
    reveal_strlit("-header_spacing");
    reveal_strlit("-async_depth");
    let a = seq!["-c:v"@, encoder_name(enc)];
    let t = live_tuning(enc);
    let b = seq!["-profile:v"@, live_profile(enc), "-bf"@, "0"@];
    let d = seq![
        "-g"@,
        dec(2 * fps),
        "-r"@,
        dec(fps),
        "-b:v"@,
        kbit(kbps),
        "-maxrate"@,
        kbit(live_maxrate(enc, kbps)),
        "-bufsize"@,
        kbit(live_bufsize(enc, kbps)),
    ];
    let args = spec_live_encoder_args(enc, fps, kbps);
    assert(args == a + t + (b + d));
    lemma_dec_first(2 * fps);
    lemma_dec_first(fps);
    lemma_dec_first(kbps);
    lemma_dec_first(live_maxrate(enc, kbps));
    lemma_dec_first(live_bufsize(enc, kbps));
    assert(b[0] == "-profile:v"@ && b[1] == live_profile(enc));
    lemma_option_in(a + t, b, d, 0);
    if enc == Encoder::Amf {
        assert(t[0] == "-usage"@ && t[1] == "lowlatency"@);
        assert(t[6] == "-forced_idr"@ && t[7] == "1"@);
        lemma_option_in(a, t, b + d, 0);
        lemma_option_in(a, t, b + d, 6);
        lemma_live_encoder_avoids(enc, fps, kbps, "ultralowlatency"@);
        lemma_live_encoder_avoids(enc, fps, kbps, "-header_spacing"@);
        lemma_live_encoder_avoids(enc, fps, kbps, "-async_depth"@);
    } else {
        lemma_live_encoder_avoids(enc, fps, kbps, "-forced_idr"@);
    }
}

/// The AMF options that the live encoder arguments never contain, and
/// the forced-IDR option that only AMF's do.
proof fn lemma_live_encoder_avoids(enc: Encoder, fps: nat, kbps: nat, x: Seq<char>)
    requires
        x == "ultralowlatency"@ || x == "-header_spacing"@ || x == "-async_depth"@ || (x
            == "-forced_idr"@ && enc != Encoder::Amf),
    ensures
        !has_arg(spec_live_encoder_args(enc, fps, kbps), x),
{
    reveal_strlit("-c:v");
    reveal_strlit("libx264");
    reveal_strlit("h264_nvenc");
    reveal_strlit("h264_amf");
    reveal_strlit("-preset");
    reveal_strlit("veryfast");
    reveal_strlit("-tune");
    reveal_strlit("zerolatency");
    reveal_strlit("p1");
    reveal_strlit("ull");
    reveal_strlit("-rc");
    reveal_strlit("cbr");
    reveal_strlit("-zerolatency");
    reveal_strlit("1");
    reveal_strlit("-delay");
    reveal_strlit("0");
    reveal_strlit("-usage");
    reveal_strlit("lowlatency");
    reveal_strlit("-quality");
    reveal_strlit("speed");
    reveal_strlit("-forced_idr");
    reveal_strlit("-profile:v");
    reveal_strlit("main");
    reveal_strlit("baseline");
    reveal_strlit("-bf");
    reveal_strlit("-g");
    reveal_strlit("-r");
    reveal_strlit("-b:v");
    reveal_strlit("-maxrate");
    reveal_strlit("-bufsize");
    reveal_strlit("ultralowlatency");
    reveal_strlit("-header_spacing");
    reveal_strlit("-async_depth");
    assert(x.len() == 15 || x.len() == 12 || x.len() == 11);
    assert(x[0] == 'u' || x[0] == '-');
    assert(x[1] == 'l' || x[1] == 'h' || x[1] == 'a' || x[1] == 'f');
    assert(x[2] == 't' || x[2] == 'e' || x[2] == 's' || x[2] == 'o');
    lemma_dec_first(2 * fps);
    lemma_dec_first(fps);
    lemma_dec_first(kbps);
    lemma_dec_first(live_maxrate(enc, kbps));
    lemma_dec_first(live_bufsize(enc, kbps));
    let a = seq!["-c:v"@, encoder_name(enc)];
    let t = live_tuning(enc);
    let b = seq!["-profile:v"@, live_profile(enc), "-bf"@, "0"@];
    let d = seq![
        "-g"@,
        dec(2 * fps),
        "-r"@,
        dec(fps),
        "-b:v"@,
        kbit(kbps),
        "-maxrate"@,
        kbit(live_maxrate(enc, kbps)),
        "-bufsize"@,
        kbit(live_bufsize(enc, kbps)),
    ];
    assert(avoids(a, x));
    assert(avoids(t, x));
    assert(avoids(b, x));
    assert(avoids(d, x));
    lemma_avoids_concat(a, t, x);
    lemma_avoids_concat(b, d, x);
    lemma_avoids_concat(a + t, b + d, x);
    assert(spec_live_encoder_args(enc, fps, kbps) == a + t + (b + d));
    lemma_avoids_has_arg(spec_live_encoder_args(enc, fps, kbps), x);
}

/// The rate options of one video output, side by side: `-g` with the
/// key-frame interval and `-r` with the frame rate, then `-b:v` with the
/// target rate, `-maxrate` and `-bufsize`, all in kbit.
pub open spec fn has_rate_options(
    args: Seq<Seq<char>>,
    gop: nat,
    fps: nat,
    kbps: nat,
    maxrate: nat,
    bufsize: nat,
) -> bool {
    exists|i: int|
        0 <= i && i + 9 < args.len() && #[trigger] args[i] == "-g"@ && args[i + 1] == dec(gop) && args[i + 2]
            == "-r"@ && args[i + 3] == dec(fps) && args[i + 4] == "-b:v"@ && args[i + 5] == kbit(kbps)
            && args[i + 6] == "-maxrate"@ && args[i + 7] == kbit(maxrate) && args[i + 8] == "-bufsize"@
            && args[i + 9] == kbit(bufsize)
}

proof fn lemma_rate_options_concat(
    a: Seq<Seq<char>>,
    b: Seq<Seq<char>>,
    gop: nat,
    fps: nat,
    kbps: nat,
    maxrate: nat,
    bufsize: nat,
)
    requires
        has_rate_options(a, gop, fps, kbps, maxrate, bufsize) || has_rate_options(
            b,
            gop,
            fps,
            kbps,
            maxrate,
            bufsize,
        ),
    ensures
        has_rate_options(a + b, gop, fps, kbps, maxrate, bufsize),
{
    let s = a + b;
    if has_rate_options(a, gop, fps, kbps, maxrate, bufsize) {
        let i = choose|i: int|
            0 <= i && i + 9 < a.len() && #[trigger] a[i] == "-g"@ && a[i + 1] == dec(gop)
                && a[i + 2] == "-r"@ && a[i + 3] == dec(fps) && a[i + 4] == "-b:v"@ && a[i + 5]
                == kbit(kbps) && a[i + 6] == "-maxrate"@ && a[i + 7] == kbit(maxrate) && a[i + 8]
                == "-bufsize"@ && a[i + 9] == kbit(bufsize);
        assert(s[i] == a[i]);
        assert(s[i + 1] == a[i + 1] && s[i + 2] == a[i + 2] && s[i + 3] == a[i + 3] && s[i + 4] == a[i + 4] && s[i + 5] == a[i + 5] && s[i + 6] == a[i + 6] && s[i + 7] == a[i + 7] && s[i + 8] == a[i + 8] && s[i + 9] == a[i + 9]);
    } else {
        let i = choose|i: int|
            0 <= i && i + 9 < b.len() && #[trigger] b[i] == "-g"@ && b[i + 1] == dec(gop)
                && b[i + 2] == "-r"@ && b[i + 3] == dec(fps) && b[i + 4] == "-b:v"@ && b[i + 5]
                == kbit(kbps) && b[i + 6] == "-maxrate"@ && b[i + 7] == kbit(maxrate) && b[i + 8]
                == "-bufsize"@ && b[i + 9] == kbit(bufsize);
        let j = a.len() + i;
        assert(s[j] == b[i]);
        assert(s[j + 1] == b[i + 1] && s[j + 2] == b[i + 2] && s[j + 3] == b[i + 3] && s[j + 4] == b[i + 4] && s[j + 5] == b[i + 5] && s[j + 6] == b[i + 6] && s[j + 7] == b[i + 7] && s[j + 8] == b[i + 8] && s[j + 9] == b[i + 9]);
    }
}

/// The live stream is encoded at the bitrate asked for, raised to
/// 500 kbit/s when less was asked: the command line carries `-b:v` with
/// that rate, followed by the peak rate and buffer (for x264 a quarter
/// more and twice the rate, for the hardware encoders the rate itself),
/// after the frame rate asked for (at least 1) and a key frame every two
/// seconds. A rate of 500 kbit/s or more is never changed.
#[verifier::rlimit(50)]
pub proof fn law_live_bitrate(
    settings: StreamSettings,
    whip_url: Seq<char>,
    audio: AudioSource,
    replay: Option<ReplayRun>,
    pipe: Option<(Seq<char>, nat, nat)>,
    enc: Encoder,
    preview: Option<Seq<char>>,
)
    ensures
        effective_kbps(settings) >= settings.bitrate_kbps,
        effective_kbps(settings) >= 500,
        effective_kbps(settings) == settings.bitrate_kbps || effective_kbps(settings) == 500,
        spec_build_args(settings, whip_url, audio, replay, pipe, enc, preview) matches Some(args) ==> ({
            let k: nat = if settings.bitrate_kbps >= 500 {
                settings.bitrate_kbps as nat
            } else {
                500
            };
            let f: nat = if settings.framerate >= 1 {
                settings.framerate as nat
            } else {
                1
            };
            has_rate_options(
                args,
                f + f,
                f,
                k,
                if enc == Encoder::X264 { k + k / 4 } else { k },
                if enc == Encoder::X264 { k + k } else { k },
            )
        }),
{
    if let Some(args) = spec_build_args(settings, whip_url, audio, replay, pipe, enc, preview) {
        let fps = effective_fps(settings);
        let kbps = effective_kbps(settings);
        let mx = live_maxrate(enc, kbps);
        let bs = live_bufsize(enc, kbps);
        let vf = spec_video_filter(pipe is Some, spec_scale_tail(settings.resolution as nat));
        let split = replay is Some || preview is Some;
        let input = spec_video_input(settings.source, fps, pipe)->0;
        let b = seq![
            "-g"@,
            dec(2 * fps),
            "-r"@,
            dec(fps),
            "-b:v"@,
            kbit(kbps),
            "-maxrate"@,
            kbit(mx),
            "-bufsize"@,
            kbit(bs),
        ];
        assert(b[0] == "-g"@ && b[1] == dec(2 * fps) && b[2] == "-r"@ && b[3] == dec(fps) && b[4]
            == "-b:v"@ && b[5] == kbit(kbps) && b[6] == "-maxrate"@ && b[7] == kbit(mx) && b[8]
            == "-bufsize"@ && b[9] == kbit(bs));
        assert(has_rate_options(b, 2 * fps, fps, kbps, mx, bs));
        let p = seq!["-c:v"@, encoder_name(enc)] + live_tuning(enc) + seq![
            "-profile:v"@,
            live_profile(enc),
            "-bf"@,
            "0"@,
        ];
        let e = spec_live_encoder_args(enc, fps, kbps);
        assert(e == p + b);
        lemma_rate_options_concat(p, b, 2 * fps, fps, kbps, mx, bs);
        let m = seq![
            "-map"@,
            if split { "[vw]"@ } else { "0:v"@ },
            "-map"@,
            if replay is Some { "[aw]"@ } else { "1:a"@ },
        ];
        let v: Seq<Seq<char>> = if split { Seq::empty() } else { seq!["-vf"@, vf] };
        let au: Seq<Seq<char>> = if replay is Some {
            Seq::empty()
        } else {
            seq!["-af"@, AUDIO_FILTER@]
        };
        let kf: Seq<Seq<char>> = if enc == Encoder::Amf {
            seq!["-force_key_frames"@, AMF_KEY_FRAMES@]
        } else {
            Seq::empty()
        };
        let t = seq![
            "-c:a"@,
            "libopus"@,
            "-b:a"@,
            "96k"@,
            "-ar"@,
            "48000"@,
            "-ac"@,
            "2"@,
            "-ts_buffer_size"@,
            "4194304"@,
            "-f"@,
            "whip"@,
            whip_url,
        ];
        let live = spec_live_output(vf, replay is Some, preview is Some, enc, fps, kbps, whip_url);
        assert(live == m + v + au + e + kf + t);
        lemma_rate_options_concat(m + v + au, e, 2 * fps, fps, kbps, mx, bs);
        lemma_rate_options_concat(m + v + au + e, kf, 2 * fps, fps, kbps, mx, bs);
        lemma_rate_options_concat(m + v + au + e + kf, t, 2 * fps, fps, kbps, mx, bs);
        let fc: Seq<Seq<char>> = if split {
            seq!["-filter_complex"@, spec_filter_complex(vf, replay is Some, preview is Some)]
        } else {
            Seq::empty()
        };
        let before = live_head() + input + spec_audio_input(audio) + fc;
        let rep: Seq<Seq<char>> = match replay {
            Some(run) => spec_replay_output(run, enc, fps, kbps),
            None => Seq::empty(),
        };
        let pre: Seq<Seq<char>> = match preview {
            Some(p) => spec_preview_output(p),
            None => Seq::empty(),
        };
        lemma_rate_options_concat(before, live, 2 * fps, fps, kbps, mx, bs);
        lemma_rate_options_concat(before + live, rep, 2 * fps, fps, kbps, mx, bs);
        lemma_rate_options_concat(before + live + rep, pre, 2 * fps, fps, kbps, mx, bs);
        assert(args == before + live + rep + pre);
        assert(fps + fps == 2 * fps);
        assert(mx == if enc == Encoder::X264 { kbps + kbps / 4 } else { kbps });
        assert(bs == if enc == Encoder::X264 { kbps + kbps } else { kbps });
    }
}

}
