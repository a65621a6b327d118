//! Hardware-encoder capability cache, probe command lines and frames, and
//! the encoder/quality fallback ladder.
use crate::pipeline::owned;
use crate::text::{dec, dec_u64, push_arg, push_string, views};
use crate::types::{encoder_name, Encoder, StreamSettings};
use std::collections::HashMap;
use vstd::prelude::*;

verus! {

broadcast use vstd::std_specs::hash::group_hash_axioms;

/// Probe picture width.
pub const PROBE_W: u32 = 640;

/// Probe picture height.
pub const PROBE_H: u32 = 360;

/// Frames written to an encoder probe.
pub const PROBE_FRAMES: u32 = 4;

/// Encoded bytes a probe must produce to count as working.
pub const MIN_PROBE_BYTES: u64 = 512;

/// One encoder/quality combination the supervisor can try.
#[derive(Debug, Clone, Copy, PartialEq, Eq, Structural)]
pub struct Rung {
    pub encoder: Encoder,
    pub framerate: u32,
    pub resolution: u32,
}

/// What has been learned about each encoder: for `(encoder, legs)`,
/// whether it can encode that many simultaneous outputs. Keyed by
/// `caps_key`, one number per pair.
pub struct EncoderCaps {
    verdicts: HashMap<u16, bool>,
}

/// Number of an encoder within the cache's keys.
pub open spec fn encoder_code(e: Encoder) -> int {
    match e {
        Encoder::X264 => 0,
        Encoder::Nvenc => 1,
        Encoder::Amf => 2,
    }
}

/// The cache key of `(e, legs)`: distinct pairs get distinct keys.
pub open spec fn caps_key(e: Encoder, legs: u8) -> u16 {
    (encoder_code(e) * 256 + legs) as u16
}

/// A capability is consistent when a working two-output encoder also
/// works with one output, and a failing one-output encoder also fails
/// with two.
pub open spec fn caps_consistent(m: Map<(Encoder, u8), bool>) -> bool {
    forall|e: Encoder|
        {
            &&& (m.contains_key((e, 2u8)) && m[(e, 2u8)]) ==> (m.contains_key((e, 1u8)) && m[(
                e,
                1u8,
            )])
            &&& (m.contains_key((e, 1u8)) && !m[(e, 1u8)]) ==> (m.contains_key((e, 2u8)) && !m[(
                e,
                2u8,
            )])
        }
}

/// The effect of one probe result on the cache: the result itself, plus
/// what it implies for the other output count.
pub open spec fn after_probe(m: Map<(Encoder, u8), bool>, e: Encoder, legs: u8, ok: bool) -> Map<
    (Encoder, u8),
    bool,
> {
    let m1 = m.insert((e, legs), ok);
    if legs == 2 && ok {
        m1.insert((e, 1u8), true)
    } else if legs == 1 && !ok {
        m1.insert((e, 2u8), false)
    } else {
        m1
    }
}

/// The cached verdict for `e`: the two-output verdict if known, else the
/// one-output verdict.
pub open spec fn verdict(m: Map<(Encoder, u8), bool>, e: Encoder) -> Option<bool> {
    if m.contains_key((e, 2u8)) {
        Some(m[(e, 2u8)])
    } else if m.contains_key((e, 1u8)) {
        Some(m[(e, 1u8)])
    } else {
        None
    }
}

/// The encoder the probes have settled on: NVENC if it works, else AMF
/// if it works, else x264; unknown (`None`) while a hardware encoder
/// ahead in that order has not been probed.
pub open spec fn spec_detected(m: Map<(Encoder, u8), bool>) -> Option<Encoder> {
    match verdict(m, Encoder::Nvenc) {
        Some(true) => Some(Encoder::Nvenc),
        None => None,
        Some(false) => match verdict(m, Encoder::Amf) {
            Some(true) => Some(Encoder::Amf),
            None => None,
            Some(false) => Some(Encoder::X264),
        },
    }
}

impl EncoderCaps {
    /// The cache as a map from `(encoder, outputs)` to "works".
    pub closed spec fn view(self) -> Map<(Encoder, u8), bool> {
        Map::new(
            |k: (Encoder, u8)| self.verdicts@.contains_key(caps_key(k.0, k.1)),
            |k: (Encoder, u8)| self.verdicts@[caps_key(k.0, k.1)],
        )
    }

    /// An empty cache: nothing probed yet.
    pub fn new() -> (r: Self)
        ensures
            r.view() == Map::<(Encoder, u8), bool>::empty(),
    {
        let r = EncoderCaps { verdicts: HashMap::new() };
        assert(r.view() =~= Map::<(Encoder, u8), bool>::empty());
        r
    }

    /// The cached verdict for `enc` driving `legs` outputs.
    pub fn cached(&self, enc: Encoder, legs: u8) -> (r: Option<bool>)
        ensures
            r == (if self.view().contains_key((enc, legs)) {
                Some(self.view()[(enc, legs)])
            } else {
                None
            }),
    {
        let k = key_of(enc, legs);
        match self.verdicts.get(&k) {
            Some(v) => Some(*v),
            None => None,
        }
    }

    /// Records a verdict.
    pub fn remember(&mut self, enc: Encoder, legs: u8, ok: bool)
        ensures
            final(self).view() == old(self).view().insert((enc, legs), ok),
    {
        let k = key_of(enc, legs);
        self.verdicts.insert(k, ok);
        proof {
            assert forall|e: Encoder, l: u8| caps_key(e, l) == k implies e == enc && l == legs by {
                lemma_caps_key_injective(e, l, enc, legs);
            }
            assert(self.view() =~= old(self).view().insert((enc, legs), ok));
        }
    }

    /// Marks `enc` unusable for one and two outputs, after it failed for
    /// real in a stream.
    pub fn poison(&mut self, enc: Encoder)
        ensures
            final(self).view() == old(self).view().insert((enc, 1u8), false).insert((enc, 2u8), false),
    {
        self.remember(enc, 1, false);
        self.remember(enc, 2, false);
    }

    /// Records the result of probing `enc` with `legs` outputs, with what
    /// it implies for the other output count.
    pub fn record_probe(&mut self, enc: Encoder, legs: u8, ok: bool)
        ensures
            final(self).view() == after_probe(old(self).view(), enc, legs, ok),
    {
        self.remember(enc, legs, ok);
        if legs == 2 && ok {
            self.remember(enc, 1, true);
        } else if legs == 1 && !ok {
            self.remember(enc, 2, false);
        }
    }

    /// The encoder the probes have settled on, if they have.
    pub fn detected(&self) -> (r: Option<Encoder>)
        ensures
            r == spec_detected(self.view()),
    {
        let nv = match self.cached(Encoder::Nvenc, 2) {
            Some(v) => Some(v),
            None => self.cached(Encoder::Nvenc, 1),
        };
        match nv {
            Some(true) => return Some(Encoder::Nvenc),
            None => return None,
            Some(false) => {},
        }
        let amf = match self.cached(Encoder::Amf, 2) {
            Some(v) => Some(v),
            None => self.cached(Encoder::Amf, 1),
        };
        match amf {
            Some(true) => Some(Encoder::Amf),
            None => None,
            Some(false) => Some(Encoder::X264),
        }
    }
}

proof fn lemma_caps_key_injective(e1: Encoder, l1: u8, e2: Encoder, l2: u8)
    ensures
        caps_key(e1, l1) == caps_key(e2, l2) ==> e1 == e2 && l1 == l2,
{
}

fn key_of(enc: Encoder, legs: u8) -> (k: u16)
    ensures
        k == caps_key(enc, legs),
{
    let code: u16 = match enc {
        Encoder::X264 => 0,
        Encoder::Nvenc => 1,
        Encoder::Amf => 2,
    };
    code * 256 + legs as u16
}

/// Probe results never contradict each other: recording a probe keeps
/// the cache consistent.
pub proof fn law_probe_keeps_caps_consistent(m: Map<(Encoder, u8), bool>, e: Encoder, legs: u8, ok: bool)
    requires
        caps_consistent(m),
    ensures
        caps_consistent(after_probe(m, e, legs, ok)),
{
    let r = after_probe(m, e, legs, ok);
    assert forall|x: Encoder|
        {
            &&& (r.contains_key((x, 2u8)) && r[(x, 2u8)]) ==> (r.contains_key((x, 1u8)) && r[(
                x,
                1u8,
            )])
            &&& (r.contains_key((x, 1u8)) && !r[(x, 1u8)]) ==> (r.contains_key((x, 2u8)) && !r[(
                x,
                2u8,
            )])
        } by {
        assert(m.contains_key((x, 2u8)) && m[(x, 2u8)] ==> m.contains_key((x, 1u8)) && m[(x, 1u8)]);
        assert(m.contains_key((x, 1u8)) && !m[(x, 1u8)] ==> m.contains_key((x, 2u8)) && !m[(
            x,
            2u8,
        )]);
    }
}

/// Poisoning an encoder keeps the cache consistent, and afterwards no
/// probe verdict can select it.
pub proof fn law_poison_is_final(m: Map<(Encoder, u8), bool>, e: Encoder)
    requires
        caps_consistent(m),
    ensures
        caps_consistent(m.insert((e, 1u8), false).insert((e, 2u8), false)),
        verdict(m.insert((e, 1u8), false).insert((e, 2u8), false), e) == Some(false),
{
    let r = m.insert((e, 1u8), false).insert((e, 2u8), false);
    assert forall|x: Encoder|
        {
            &&& (r.contains_key((x, 2u8)) && r[(x, 2u8)]) ==> (r.contains_key((x, 1u8)) && r[(
                x,
                1u8,
            )])
            &&& (r.contains_key((x, 1u8)) && !r[(x, 1u8)]) ==> (r.contains_key((x, 2u8)) && !r[(
                x,
                2u8,
            )])
        } by {
        assert(m.contains_key((x, 2u8)) && m[(x, 2u8)] ==> m.contains_key((x, 1u8)) && m[(x, 1u8)]);
        assert(m.contains_key((x, 1u8)) && !m[(x, 1u8)] ==> m.contains_key((x, 2u8)) && !m[(
            x,
            2u8,
        )]);
    }
}

/// A probe counts as working when ffmpeg exited cleanly after writing at
/// least `MIN_PROBE_BYTES` of encoded output.
pub fn probe_verdict(exited_ok: bool, encoded_bytes: u64) -> (r: bool)
    ensures
        r == (exited_ok && encoded_bytes >= MIN_PROBE_BYTES),
{
    exited_ok && encoded_bytes >= MIN_PROBE_BYTES
}

/// The probe command line: raw BGRA frames on stdin, encoded to one or
/// two fragmented-MP4 outputs (the first on stdout, the second to the
/// null sink).
pub open spec fn spec_probe_args(enc: Encoder, legs: nat, null_sink: Seq<char>) -> Seq<Seq<char>> {
    seq![
        "-hide_banner"@,
        "-loglevel"@,
        "error"@,
        "-nostats"@,
        "-f"@,
        "rawvideo"@,
        "-pix_fmt"@,
        "bgra"@,
        "-video_size"@,
        dec(PROBE_W as nat) + "x"@ + dec(PROBE_H as nat),
        "-framerate"@,
        "30"@,
        "-i"@,
        "pipe:0"@,
    ] + (if legs == 2 {
        seq!["-filter_complex"@, "[0:v]format=yuv420p,split=2[a][b]"@]
    } else {
        seq!["-vf"@, "format=yuv420p"@]
    }) + probe_outputs(enc, legs, legs, null_sink)
}

/// The last `k` of the `legs` probe outputs.
pub open spec fn probe_outputs(enc: Encoder, legs: nat, k: nat, null_sink: Seq<char>) -> Seq<
    Seq<char>,
>
    decreases k,
{
    if k == 0 || k > legs {
        Seq::empty()
    } else {
        let i = legs - k;
        (if legs == 2 {
            seq!["-map"@, if i == 0 { "[a]"@ } else { "[b]"@ }]
        } else {
            Seq::empty()
        }) + seq![
            "-c:v"@,
            encoder_name(enc),
            "-b:v"@,
            "1000k"@,
            "-f"@,
            "mp4"@,
            "-movflags"@,
            "+frag_keyframe+empty_moov"@,
            if i == 0 { "pipe:1"@ } else { null_sink },
        ] + probe_outputs(enc, legs, (k - 1) as nat, null_sink)
    }
}

/// The probe command line for `enc` with `legs` outputs.
pub fn probe_args(enc: Encoder, legs: u8, null_sink: &str) -> (a: Vec<String>)
    ensures
        views(a@) == spec_probe_args(enc, legs as nat, null_sink@),
{
    let mut a = owned(
        &[
            "-hide_banner",
            "-loglevel",
            "error",
            "-nostats",
            "-f",
            "rawvideo",
            "-pix_fmt",
            "bgra",
            "-video_size",
        ],
    );
    let mut size = dec_u64(PROBE_W as u64);
    crate::text::push_str(&mut size, "x");
    crate::text::push_str(&mut size, dec_u64(PROBE_H as u64).as_str());
    push_string(&mut a, size);
    push_arg(&mut a, "-framerate");
    push_arg(&mut a, "30");
    push_arg(&mut a, "-i");
    push_arg(&mut a, "pipe:0");
    let ghost head = views(a@);
    if legs == 2 {
        push_arg(&mut a, "-filter_complex");
        push_arg(&mut a, "[0:v]format=yuv420p,split=2[a][b]");
    } else {
        push_arg(&mut a, "-vf");
        push_arg(&mut a, "format=yuv420p");
    }
    let ghost body = views(a@);
    let mut i: u8 = 0;
    while i < legs
        invariant
            i <= legs,
            views(a@) + probe_outputs(enc, legs as nat, (legs - i) as nat, null_sink@) == body
                + probe_outputs(enc, legs as nat, legs as nat, null_sink@),
        decreases legs - i,
    {
        let ghost before = views(a@);
        if legs == 2 {
            push_arg(&mut a, "-map");
            if i == 0 {
                push_arg(&mut a, "[a]");
            } else {
                push_arg(&mut a, "[b]");
            }
        }
        push_arg(&mut a, "-c:v");
        push_arg(&mut a, enc.name());
        push_arg(&mut a, "-b:v");
        push_arg(&mut a, "1000k");
        push_arg(&mut a, "-f");
        push_arg(&mut a, "mp4");
        push_arg(&mut a, "-movflags");
        push_arg(&mut a, "+frag_keyframe+empty_moov");
        if i == 0 {
            push_arg(&mut a, "pipe:1");
        } else {
            push_arg(&mut a, null_sink);
        }
        proof {
            let k = (legs - i) as nat;
            let step = (if legs == 2 {
                seq!["-map"@, if i == 0 { "[a]"@ } else { "[b]"@ }]
            } else {
                Seq::<Seq<char>>::empty()
            }) + seq![
                "-c:v"@,
                encoder_name(enc),
                "-b:v"@,
                "1000k"@,
                "-f"@,
                "mp4"@,
                "-movflags"@,
                "+frag_keyframe+empty_moov"@,
                if i == 0 { "pipe:1"@ } else { null_sink@ },
            ];
            assert(views(a@) =~= before + step);
            assert(probe_outputs(enc, legs as nat, k, null_sink@) == step + probe_outputs(
                enc,
                legs as nat,
                (k - 1) as nat,
                null_sink@,
            ));
            assert(views(a@) + probe_outputs(enc, legs as nat, (k - 1) as nat, null_sink@) =~= before
                + probe_outputs(enc, legs as nat, k, null_sink@));
        }
        i = i + 1;
    }
    proof {
        assert(probe_outputs(enc, legs as nat, 0, null_sink@) =~= Seq::<Seq<char>>::empty());
        assert(views(a@) =~= body + probe_outputs(enc, legs as nat, legs as nat, null_sink@));
        assert(views(a@) =~= spec_probe_args(enc, legs as nat, null_sink@));
    }
    a
}

/// Byte `k` (0..4, B G R A) of pixel `i` of the synthetic probe frame:
/// a moving XOR pattern, fully opaque.
pub open spec fn synthetic_byte(width: u32, seed: u32, i: nat, k: nat) -> u8 {
    let x = (i % (width as nat)) as u32;
    let y = (i / (width as nat)) as u32;
    let v = vstd::wrapping::u32_specs::wrapping_mul(
        vstd::wrapping::u32_specs::wrapping_add(x ^ y, seed),
        37,
    ) as u8;
    if k == 0 {
        v
    } else if k == 1 {
        vstd::wrapping::u8_specs::wrapping_add(v, 85)
    } else if k == 2 {
        vstd::wrapping::u8_specs::wrapping_add(v, 170)
    } else {
        255
    }
}

/// A synthetic BGRA frame for encoder probes.
pub fn synthetic_frame(width: u32, height: u32, seed: u32) -> (buf: Vec<u8>)
    requires
        width as nat * height as nat * 4 <= u32::MAX,
    ensures
        buf@.len() == width as nat * height as nat * 4,
        forall|i: int, k: int|
            0 <= i < width as nat * height as nat && 0 <= k < 4 ==> #[trigger] buf@[4 * i + k]
                == synthetic_byte(width, seed, i as nat, k as nat),
{
    let pixels: u32 = width * height;
    let mut buf: Vec<u8> = Vec::new();
    let mut i: u32 = 0;
    while i < pixels
        invariant
            pixels == width as nat * height as nat,
            pixels * 4 <= u32::MAX,
            i <= pixels,
            buf@.len() == 4 * i,
            forall|p: int, k: int|
                0 <= p < i && 0 <= k < 4 ==> #[trigger] buf@[4 * p + k] == synthetic_byte(
                    width,
                    seed,
                    p as nat,
                    k as nat,
                ),
        decreases pixels - i,
    {
        assert(width > 0) by (nonlinear_arith)
            requires
                i < pixels,
                pixels == width as nat * height as nat,
        ;
        let x = i % width;
        let y = i / width;
        let v = (x ^ y).wrapping_add(seed).wrapping_mul(37) as u8;
        let ghost before = buf@;
        buf.push(v);
        buf.push(v.wrapping_add(85));
        buf.push(v.wrapping_add(170));
        buf.push(255);
        proof {
            assert forall|p: int, k: int|
                0 <= p < i + 1 && 0 <= k < 4 implies #[trigger] buf@[4 * p + k] == synthetic_byte(
                width,
                seed,
                p as nat,
                k as nat,
            ) by {
                if p < i {
                    assert(buf@[4 * p + k] == before[4 * p + k]);
                }
            }
        }
        i = i + 1;
    }
    buf
}

/// Hardware encoders to probe, in order of preference: none when x264 is
/// chosen, AMF first when it is preferred, else NVENC first.
pub open spec fn spec_hw_candidates(pref: Option<Encoder>) -> Seq<Encoder> {
    if pref == Some(Encoder::X264) {
        Seq::empty()
    } else if pref == Some(Encoder::Amf) {
        seq![Encoder::Amf, Encoder::Nvenc]
    } else {
        seq![Encoder::Nvenc, Encoder::Amf]
    }
}

/// Outputs a probe encodes: two when a replay is recorded beside the
/// stream, else one.
pub fn probe_legs(with_replay: bool) -> (r: u8)
    ensures
        r == (if with_replay {
            2u8
        } else {
            1u8
        }),
{
    if with_replay {
        2
    } else {
        1
    }
}

/// The hardware encoders worth probing for a preference, in order.
pub fn hw_candidates(pref: Option<Encoder>) -> (r: Vec<Encoder>)
    ensures
        r@ == spec_hw_candidates(pref),
{
    let mut r: Vec<Encoder> = Vec::new();
    if pref != Some(Encoder::X264) {
        if pref == Some(Encoder::Amf) {
            r.push(Encoder::Amf);
            r.push(Encoder::Nvenc);
        } else {
            r.push(Encoder::Nvenc);
            r.push(Encoder::Amf);
        }
    }
    assert(r@ =~= spec_hw_candidates(pref));
    r
}

/// The software rungs closing every ladder: full quality, then at most
/// 30 fps, then at most 30 fps at 720p, each only if it differs from the
/// rungs before it.
pub open spec fn software_rungs(framerate: u32, resolution: u32) -> Seq<Rung> {
    let base = Rung { encoder: Encoder::X264, framerate, resolution };
    let half = Rung {
        encoder: Encoder::X264,
        framerate: if framerate < 30 {
            framerate
        } else {
            30
        },
        resolution,
    };
    let floor = Rung { encoder: Encoder::X264, framerate: half.framerate, resolution: 720 };
    seq![base] + (if half != base {
        seq![half]
    } else {
        Seq::empty()
    }) + (if floor != half && floor != base {
        seq![floor]
    } else {
        Seq::empty()
    })
}

/// The fallback ladder: every hardware encoder that probed as usable, in
/// probe order and at full quality, then the software rungs.
pub open spec fn spec_ladder(usable: Seq<Encoder>, framerate: u32, resolution: u32) -> Seq<Rung> {
    usable.map_values(|e: Encoder| Rung { encoder: e, framerate, resolution }) + software_rungs(
        framerate,
        resolution,
    )
}

/// Builds the fallback ladder from the encoders that probed as usable.
pub fn build_ladder(usable: &[Encoder], settings: &StreamSettings) -> (rungs: Vec<Rung>)
    ensures
        rungs@ == spec_ladder(usable@, settings.framerate, settings.resolution),
{
    let mut rungs: Vec<Rung> = Vec::new();
    let mut i: usize = 0;
    while i < usable.len()
        invariant
            i <= usable@.len(),
            rungs@ == usable@.subrange(0, i as int).map_values(
                |e: Encoder| Rung { encoder: e, framerate: settings.framerate, resolution: settings.resolution },
            ),
        decreases usable@.len() - i,
    {
        rungs.push(
            Rung {
                encoder: usable[i],
                framerate: settings.framerate,
                resolution: settings.resolution,
            },
        );
        i = i + 1;
        assert(rungs@ =~= usable@.subrange(0, i as int).map_values(
            |e: Encoder| Rung { encoder: e, framerate: settings.framerate, resolution: settings.resolution },
        ));
    }
    assert(usable@.subrange(0, usable@.len() as int) =~= usable@);
    let ghost hw = rungs@;
    let base = Rung {
        encoder: Encoder::X264,
        framerate: settings.framerate,
        resolution: settings.resolution,
    };
    rungs.push(base);
    let half = Rung {
        encoder: Encoder::X264,
        framerate: if settings.framerate < 30 {
            settings.framerate
        } else {
            30
        },
        resolution: settings.resolution,
    };
    if half != base {
        rungs.push(half);
    }
    let floor = Rung { encoder: Encoder::X264, framerate: half.framerate, resolution: 720 };
    if floor != half && floor != base {
        rungs.push(floor);
    }
    assert(rungs@ =~= hw + software_rungs(settings.framerate, settings.resolution));
    rungs
}

/// Every ladder ends with software encoding at the requested quality or
/// lower, so some rung is always available after hardware fails.
pub proof fn law_ladder_ends_in_software(usable: Seq<Encoder>, framerate: u32, resolution: u32)
    ensures
        spec_ladder(usable, framerate, resolution).len() >= usable.len() + 1,
        spec_ladder(usable, framerate, resolution).last().encoder == Encoder::X264,
        spec_ladder(usable, framerate, resolution)[usable.len() as int] == (Rung {
            encoder: Encoder::X264,
            framerate,
            resolution,
        }),
        forall|i: int|
            usable.len() <= i < spec_ladder(usable, framerate, resolution).len() ==> #[trigger] spec_ladder(
                usable,
                framerate,
                resolution,
            )[i].encoder == Encoder::X264,
{
}

/// After the hardware rungs the ladder steps down in software: first the
/// requested quality, then (only when more than 30 fps was asked for) the
/// same resolution at 30 fps, and it always ends at 720p with at most
/// 30 fps, a rung added only when it differs from those before it.
pub proof fn law_ladder_software_steps(usable: Seq<Encoder>, framerate: u32, resolution: u32)
    ensures
        ({
            let l = spec_ladder(usable, framerate, resolution);
            let n = usable.len() as int;
            let capped: u32 = if framerate <= 30 { framerate } else { 30 };
            &&& l.len() == n + 1 + (if framerate > 30 { 1int } else { 0 }) + (if resolution != 720 {
                1int
            } else {
                0
            })
            &&& forall|i: int| 0 <= i < n ==> #[trigger] l[i] == (Rung {
                encoder: usable[i],
                framerate,
                resolution,
            })
            &&& l[n] == (Rung { encoder: Encoder::X264, framerate, resolution })
            &&& framerate > 30 ==> l[n + 1] == (Rung { encoder: Encoder::X264, framerate: 30, resolution })
            &&& l.last() == (Rung { encoder: Encoder::X264, framerate: capped, resolution: 720 })
        }),
{
}

} // verus!
