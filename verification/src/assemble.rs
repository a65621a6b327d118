//! Assembling the uploaded replay from its segments: reading a segment's
//! frame size from ffmpeg's report, and the command lines that cut the
//! head segment and fill the gaps between runs with black.
use crate::gamecapture::{find_char_range, line_end, lines};
use crate::pipeline::{replay_encoder_args, spec_replay_encoder_args};
use crate::replay::{parse_u32, parse_u32_in};
use crate::text::{
    contains, contains_chars, dec, dec_padded, dec_u64, extend_args, from_chars,
    is_digit, owned_str, push_arg, push_char, push_str, push_string, split_once, to_chars, views,
};
use crate::types::Encoder;
use vstd::prelude::*;

verus! {

/// Token separators of a stream description line.
pub open spec fn is_sep(c: char) -> bool {
    c == ' ' || c == ','
}

/// The pieces of `s` between separators, empty ones included
/// (`str::split` on a space or a comma).
pub open spec fn tokens(s: Seq<char>) -> Seq<Seq<char>>
    decreases s.len(),
{
    if s.len() == 0 {
        seq![Seq::empty()]
    } else {
        let t = tokens(s.drop_last());
        if is_sep(s.last()) {
            t.push(Seq::empty())
        } else {
            t.update(t.len() - 1, t.last().push(s.last()))
        }
    }
}

proof fn lemma_tokens_nonempty(s: Seq<char>)
    ensures
        tokens(s).len() >= 1,
    decreases s.len(),
{
    if s.len() > 0 {
        lemma_tokens_nonempty(s.drop_last());
    }
}

/// `s` without its trailing non-digit characters.
pub open spec fn trim_nondigits_end(s: Seq<char>) -> Seq<char>
    decreases s.len(),
{
    if s.len() > 0 && !is_digit(s.last()) {
        trim_nondigits_end(s.drop_last())
    } else {
        s
    }
}

/// A `WxH` token with both sides at least 16 (trailing non-digits after
/// the height are ignored).
pub open spec fn token_size(t: Seq<char>) -> Option<(u32, u32)> {
    match split_once(t, 'x') {
        Some((a, b)) => match (parse_u32(a), parse_u32(trim_nondigits_end(b))) {
            (Some(w), Some(h)) => if w >= 16 && h >= 16 {
                Some((w, h))
            } else {
                None
            },
            _ => None,
        },
        None => None,
    }
}

/// The first size among the tokens from `i` on.
pub open spec fn first_size(ts: Seq<Seq<char>>, i: nat) -> Option<(u32, u32)>
    decreases ts.len() - i,
{
    if i >= ts.len() {
        None
    } else {
        match token_size(ts[i as int]) {
            Some(x) => Some(x),
            None => first_size(ts, i + 1),
        }
    }
}

/// The first line containing `pat`.
pub open spec fn first_line_with(ls: Seq<Seq<char>>, pat: Seq<char>) -> Option<Seq<char>>
    decreases ls.len(),
{
    if ls.len() == 0 {
        None
    } else if contains(ls[0], pat) {
        Some(ls[0])
    } else {
        first_line_with(ls.drop_first(), pat)
    }
}

/// The frame size ffmpeg reports for a file: the first size token on the
/// first line that describes a video stream.
pub open spec fn spec_video_size(report: Seq<char>) -> Option<(u32, u32)> {
    match first_line_with(lines(report), "Video:"@) {
        Some(l) => first_size(tokens(l), 0),
        None => None,
    }
}

/// Reads a `WxH` token.
fn size_of_token(t: &str) -> (r: Option<(u32, u32)>)
    ensures
        r == token_size(t@),
{
    let v = to_chars(t);
    let x = find_char_range(v.as_slice(), 0, v.len(), 'x');
    proof {
        assert(v@.subrange(0, v@.len() as int) =~= v@);
    }
    let i = match x {
        Some(i) => i,
        None => return None,
    };
    proof {
        assert(v@.subrange(0, i as int) =~= v@.subrange(0, i as int));
    }
    let w = match parse_u32_in(v.as_slice(), 0, i) {
        Some(w) => w,
        None => return None,
    };
    let mut e: usize = v.len();
    let ghost b = v@.subrange(i + 1, v@.len() as int);
    assert(v@.subrange(i + 1, e as int) =~= b);
    while e > i + 1 && !('0' <= v[e - 1] && v[e - 1] <= '9')
        invariant
            i + 1 <= e <= v@.len(),
            b == v@.subrange(i + 1, v@.len() as int),
            trim_nondigits_end(v@.subrange(i + 1, e as int)) == trim_nondigits_end(b),
        decreases e,
    {
        assert(v@.subrange(i + 1, e - 1) =~= v@.subrange(i + 1, e as int).drop_last());
        e = e - 1;
    }
    proof {
        let t2 = v@.subrange(i + 1, e as int);
        if e > i + 1 {
            assert(t2.last() == v@[e - 1]);
        }
        assert(trim_nondigits_end(t2) == t2);
    }
    let h = match parse_u32_in(v.as_slice(), i + 1, e) {
        Some(h) => h,
        None => return None,
    };
    if w >= 16 && h >= 16 {
        Some((w, h))
    } else {
        None
    }
}

/// Splits a line into its tokens.
fn split_tokens(v: &[char]) -> (r: Vec<String>)
    ensures
        views(r@) == tokens(v@),
{
    let mut done: Vec<String> = Vec::new();
    let mut cur = String::new();
    let mut i: usize = 0;
    assert(v@.subrange(0, 0) =~= Seq::<char>::empty());
    while i < v.len()
        invariant
            i <= v@.len(),
            views(done@).push(cur@) == tokens(v@.subrange(0, i as int)),
        decreases v@.len() - i,
    {
        let c = v[i];
        let ghost pre = v@.subrange(0, i + 1);
        assert(pre.drop_last() =~= v@.subrange(0, i as int));
        assert(pre.last() == c);
        if c == ' ' || c == ',' {
            let ghost old_done = views(done@);
            let ghost old_cur = cur@;
            let finished = cur;
            done.push(finished);
            cur = String::new();
            assert(views(done@) =~= old_done.push(old_cur));
            assert(views(done@).push(cur@) =~= old_done.push(old_cur).push(Seq::empty()));
        } else {
            let ghost old_done = views(done@);
            let ghost old_cur = cur@;
            push_char(&mut cur, c);
            assert(views(done@).push(cur@) =~= old_done.push(old_cur).update(
                old_done.len() as int,
                old_cur.push(c),
            ));
        }
        i = i + 1;
    }
    assert(v@.subrange(0, v@.len() as int) =~= v@);
    let ghost d = views(done@);
    let ghost c = cur@;
    done.push(cur);
    assert(views(done@) =~= d.push(c));
    done
}

/// Reads the frame size from ffmpeg's report on a file (`ffmpeg -i`),
/// as the filler needs it.
pub fn video_size(report: &str) -> (r: Option<(u32, u32)>)
    ensures
        r == spec_video_size(report@),
{
    let v = to_chars(report);
    let pat = to_chars("Video:");
    let mut b: usize = 0;
    assert(v@.subrange(0, v@.len() as int) =~= v@);
    while b < v.len()
        invariant
            b <= v@.len(),
            v@ == report@,
            pat@ == "Video:"@,
            first_line_with(lines(report@), "Video:"@) == first_line_with(
                lines(v@.subrange(b as int, v@.len() as int)),
                "Video:"@,
            ),
        decreases v@.len() - b,
    {
        let (e, next) = line_end(v.as_slice(), b);
        let line = from_chars(v.as_slice(), b, e);
        let lv = to_chars(line.as_str());
        proof {
            let ls = lines(v@.subrange(b as int, v@.len() as int));
            assert(ls[0] == v@.subrange(b as int, e as int));
            assert(ls.drop_first() =~= lines(v@.subrange(next as int, v@.len() as int)));
        }
        if contains_chars(lv.as_slice(), pat.as_slice()) {
            let ts = split_tokens(lv.as_slice());
            let mut k: usize = 0;
            proof {
                lemma_tokens_nonempty(lv@);
                assert(lv@ == v@.subrange(b as int, e as int));
                assert(first_line_with(lines(report@), "Video:"@) == Some(lv@));
            }
            while k < ts.len()
                invariant
                    k <= ts@.len(),
                    views(ts@) == tokens(lv@),
                    spec_video_size(report@) == first_size(tokens(lv@), k as nat),
                decreases ts@.len() - k,
            {
                assert(views(ts@)[k as int] == ts@[k as int]@);
                match size_of_token(ts[k].as_str()) {
                    Some(s) => {
                        return Some(s);
                    },
                    None => {},
                }
                k = k + 1;
            }
            return None;
        }
        b = next;
    }
    proof {
        assert(v@.subrange(b as int, v@.len() as int) =~= Seq::<char>::empty());
        assert(lines(Seq::<char>::empty()) =~= Seq::<Seq<char>>::empty());
    }
    None
}

/// `ms` as seconds with three decimals (`format!("{:.3}", ms / 1000.0)`).
pub open spec fn spec_seconds_text(ms: int) -> Seq<char> {
    let a: nat = if ms < 0 {
        (-ms) as nat
    } else {
        ms as nat
    };
    (if ms < 0 {
        "-"@
    } else {
        Seq::empty()
    }) + dec(a / 1000) + "."@ + dec_padded(a % 1000, 3)
}

/// Writes a millisecond count as seconds with three decimals.
pub fn seconds_text(ms: i64) -> (r: String)
    ensures
        r@ == spec_seconds_text(ms as int),
{
    let wide: i128 = ms as i128;
    let a: u64 = if wide < 0 {
        (-wide) as u64
    } else {
        wide as u64
    };
    let mut r = if ms < 0 {
        owned_str("-")
    } else {
        String::new()
    };
    push_str(&mut r, dec_u64(a / 1000).as_str());
    push_str(&mut r, ".");
    let frac = a % 1000;
    let digits = dec_u64(frac);
    proof {
        crate::text::lemma_dec_nonempty(frac as nat);
        if frac >= 10 {
            assert(dec(frac as nat) == dec((frac / 10) as nat).push(crate::text::digit_char((frac % 10) as nat)));
            crate::text::lemma_dec_nonempty((frac / 10) as nat);
            if frac >= 100 {
                assert(dec((frac / 10) as nat) == dec((frac / 100) as nat).push(
                    crate::text::digit_char(((frac / 10) % 10) as nat),
                ));
                assert(dec((frac / 100) as nat).len() == 1);
            } else {
                assert(dec((frac / 10) as nat).len() == 1);
            }
        } else {
            assert(dec(frac as nat).len() == 1);
        }
    }
    let ghost before = r@;
    if frac < 10 {
        push_str(&mut r, "00");
        proof {
            reveal_strlit("00");
            assert(crate::text::zeros(2) =~= "00"@);
        }
    } else if frac < 100 {
        push_str(&mut r, "0");
        proof {
            reveal_strlit("0");
            assert(crate::text::zeros(1) =~= "0"@);
        }
    }
    push_str(&mut r, digits.as_str());
    r
}

/// Audio encoding of every assembled piece.
pub open spec fn aac_args() -> Seq<Seq<char>> {
    seq!["-c:a"@, "aac"@, "-b:a"@, "160k"@, "-ar"@, "48000"@, "-ac"@, "2"@]
}

fn push_aac(a: &mut Vec<String>)
    ensures
        views(final(a)@) == views(old(a)@) + aac_args(),
{
    let ghost before = views(a@);
    push_arg(a, "-c:a");
    push_arg(a, "aac");
    push_arg(a, "-b:a");
    push_arg(a, "160k");
    push_arg(a, "-ar");
    push_arg(a, "48000");
    push_arg(a, "-ac");
    push_arg(a, "2");
    assert(views(a@) =~= before + aac_args());
}

/// The frame rate and bitrate of assembled pieces: the saved ones, at
/// least 1 fps and 500 kbit/s.
pub open spec fn piece_fps(fps: u32) -> u32 {
    if fps < 1 {
        1
    } else {
        fps
    }
}

/// See `piece_fps`.
pub open spec fn piece_kbps(kbps: u32) -> u32 {
    if kbps < 500 {
        500
    } else {
        kbps
    }
}

/// The command that re-encodes the head segment from `trim_ms` on.
pub open spec fn spec_trim_head_args(
    head: Seq<char>,
    trim_ms: int,
    enc: Encoder,
    fps: u32,
    kbps: u32,
    out: Seq<char>,
) -> Seq<Seq<char>> {
    seq!["-hide_banner"@, "-loglevel"@, "error"@, "-y"@, "-ss"@, spec_seconds_text(trim_ms), "-i"@, head]
        + spec_replay_encoder_args(enc, piece_fps(fps) as nat, piece_kbps(kbps) as nat) + aac_args()
        + seq!["-movflags"@, "+frag_keyframe+empty_moov"@, out]
}

/// Builds the head-trim command line.
pub fn trim_head_args(head: &str, trim_ms: i64, enc: Encoder, fps: u32, kbps: u32, out: &str) -> (r:
    Vec<String>)
    ensures
        views(r@) == spec_trim_head_args(head@, trim_ms as int, enc, fps, kbps, out@),
{
    let mut a: Vec<String> = Vec::new();
    push_arg(&mut a, "-hide_banner");
    push_arg(&mut a, "-loglevel");
    push_arg(&mut a, "error");
    push_arg(&mut a, "-y");
    push_arg(&mut a, "-ss");
    push_string(&mut a, seconds_text(trim_ms));
    push_arg(&mut a, "-i");
    push_arg(&mut a, head);
    let f = if fps < 1 {
        1
    } else {
        fps
    };
    let k = if kbps < 500 {
        500
    } else {
        kbps
    };
    extend_args(&mut a, replay_encoder_args(enc, f, k));
    push_aac(&mut a);
    push_arg(&mut a, "-movflags");
    push_arg(&mut a, "+frag_keyframe+empty_moov");
    push_arg(&mut a, out);
    assert(views(a@) =~= spec_trim_head_args(head@, trim_ms as int, enc, fps, kbps, out@));
    a
}

/// The command that renders `gap_ms` of black, silent video of size
/// `w`×`h`.
pub open spec fn spec_filler_args(
    w: u32,
    h: u32,
    fps: u32,
    kbps: u32,
    gap_ms: int,
    enc: Encoder,
    out: Seq<char>,
) -> Seq<Seq<char>> {
    seq![
        "-hide_banner"@,
        "-loglevel"@,
        "error"@,
        "-y"@,
        "-f"@,
        "lavfi"@,
        "-i"@,
        "color=c=black:s="@ + dec(w as nat) + "x"@ + dec(h as nat) + ":r="@ + dec(
            piece_fps(fps) as nat,
        ),
        "-f"@,
        "lavfi"@,
        "-i"@,
        "anullsrc=r=48000:cl=stereo"@,
        "-t"@,
        spec_seconds_text(gap_ms),
    ] + spec_replay_encoder_args(enc, piece_fps(fps) as nat, piece_kbps(kbps) as nat) + aac_args()
        + seq!["-movflags"@, "+frag_keyframe+empty_moov"@, out]
}

/// Builds the filler command line.
pub fn filler_args(w: u32, h: u32, fps: u32, kbps: u32, gap_ms: i64, enc: Encoder, out: &str) -> (r:
    Vec<String>)
    ensures
        views(r@) == spec_filler_args(w, h, fps, kbps, gap_ms as int, enc, out@),
{
    let f = if fps < 1 {
        1
    } else {
        fps
    };
    let k = if kbps < 500 {
        500
    } else {
        kbps
    };
    let mut a: Vec<String> = Vec::new();
    push_arg(&mut a, "-hide_banner");
    push_arg(&mut a, "-loglevel");
    push_arg(&mut a, "error");
    push_arg(&mut a, "-y");
    push_arg(&mut a, "-f");
    push_arg(&mut a, "lavfi");
    push_arg(&mut a, "-i");
    let mut color = owned_str("color=c=black:s=");
    push_str(&mut color, dec_u64(w as u64).as_str());
    push_str(&mut color, "x");
    push_str(&mut color, dec_u64(h as u64).as_str());
    push_str(&mut color, ":r=");
    push_str(&mut color, dec_u64(f as u64).as_str());
    push_string(&mut a, color);
    push_arg(&mut a, "-f");
    push_arg(&mut a, "lavfi");
    push_arg(&mut a, "-i");
    push_arg(&mut a, "anullsrc=r=48000:cl=stereo");
    push_arg(&mut a, "-t");
    push_string(&mut a, seconds_text(gap_ms));
    extend_args(&mut a, replay_encoder_args(enc, f, k));
    push_aac(&mut a);
    push_arg(&mut a, "-movflags");
    push_arg(&mut a, "+frag_keyframe+empty_moov");
    push_arg(&mut a, out);
    assert(views(a@) =~= spec_filler_args(w, h, fps, kbps, gap_ms as int, enc, out@));
    a
}

/// The command that joins the pieces listed in `list`: stream copy, or a
/// software re-encode when the runs used different encoders.
pub open spec fn spec_concat_args(list: Seq<char>, mixed: bool, fps: u32, kbps: u32, out: Seq<char>) -> Seq<
    Seq<char>,
> {
    seq!["-y"@, "-f"@, "concat"@, "-safe"@, "0"@, "-i"@, list] + (if mixed {
        spec_replay_encoder_args(Encoder::X264, piece_fps(fps) as nat, piece_kbps(kbps) as nat)
            + aac_args()
    } else {
        seq!["-c"@, "copy"@]
    }) + seq![out]
}

/// Builds the join command line.
pub fn concat_args(list: &str, mixed: bool, fps: u32, kbps: u32, out: &str) -> (r: Vec<String>)
    ensures
        views(r@) == spec_concat_args(list@, mixed, fps, kbps, out@),
{
    let mut a: Vec<String> = Vec::new();
    push_arg(&mut a, "-y");
    push_arg(&mut a, "-f");
    push_arg(&mut a, "concat");
    push_arg(&mut a, "-safe");
    push_arg(&mut a, "0");
    push_arg(&mut a, "-i");
    push_arg(&mut a, list);
    if mixed {
        let f = if fps < 1 {
            1
        } else {
            fps
        };
        let k = if kbps < 500 {
            500
        } else {
            kbps
        };
        extend_args(&mut a, replay_encoder_args(Encoder::X264, f, k));
        push_aac(&mut a);
    } else {
        push_arg(&mut a, "-c");
        push_arg(&mut a, "copy");
    }
    push_arg(&mut a, out);
    assert(views(a@) =~= spec_concat_args(list@, mixed, fps, kbps, out@));
    a
}

} // verus!
