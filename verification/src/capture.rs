//! Capture bookkeeping: even frame sizes, fullscreen detection, the
//! monitor and window lists, the capture pipe names, the capture
//! session's health, and the pacing of the video and audio writers.
use crate::text::{hex_fixed, hex_fixed_u64, owned_str, push_str, to_chars, trim};
use crate::types::MonitorInfo;
use vstd::prelude::*;

verus! {

/// The largest of `v` and 2, rounded down to an even number.
pub open spec fn spec_even(v: i32) -> u32 {
    let m: int = if v < 2 {
        2
    } else {
        v as int
    };
    (m - m % 2) as u32
}

/// A frame dimension as the encoder needs it: at least 2 and even.
pub fn even(v: i32) -> (r: u32)
    ensures
        r == spec_even(v),
{
    let m: u32 = if v < 2 {
        2
    } else {
        v as u32
    };
    let r = m & !1u32;
    assert(m & !1u32 == m - m % 2) by (bit_vector);
    r
}

/// Frame dimensions are even, at least 2, and lose at most one pixel.
pub proof fn law_even_sizes(v: i32)
    ensures
        spec_even(v) % 2 == 0,
        spec_even(v) >= 2,
        v >= 2 ==> spec_even(v) <= v && v - spec_even(v) <= 1,
{
}

/// A screen rectangle, edges in pixels.
#[derive(Debug, Clone, Copy, PartialEq, Eq, Structural)]
pub struct Rect {
    pub left: i32,
    pub top: i32,
    pub right: i32,
    pub bottom: i32,
}

/// Pixels two edges may differ by and still count as the same.
pub const EDGE_TOLERANCE: i64 = 2;

/// `|a - b| <= EDGE_TOLERANCE`.
pub open spec fn near(a: i32, b: i32) -> bool {
    -EDGE_TOLERANCE <= a - b <= EDGE_TOLERANCE
}

/// The window covers its monitor, every edge within the tolerance.
pub open spec fn spec_covers(win: Rect, mon: Rect) -> bool {
    near(win.left, mon.left) && near(win.top, mon.top) && near(win.right, mon.right) && near(
        win.bottom,
        mon.bottom,
    )
}

fn near_exec(a: i32, b: i32) -> (r: bool)
    ensures
        r == near(a, b),
{
    let d: i64 = a as i64 - b as i64;
    -EDGE_TOLERANCE <= d && d <= EDGE_TOLERANCE
}

/// Whether a window rectangle covers its monitor's.
pub fn covers_monitor(win: Rect, mon: Rect) -> (r: bool)
    ensures
        r == spec_covers(win, mon),
{
    near_exec(win.left, mon.left) && near_exec(win.top, mon.top) && near_exec(win.right, mon.right)
        && near_exec(win.bottom, mon.bottom)
}

/// A window is captured as fullscreen when it is minimised or covers its
/// monitor; without either rectangle it does not cover it.
pub fn is_fullscreen(iconic: bool, win: Option<Rect>, mon: Option<Rect>) -> (r: bool)
    ensures
        r == (iconic || match (win, mon) {
            (Some(w), Some(m)) => spec_covers(w, m),
            _ => false,
        }),
{
    if iconic {
        return true;
    }
    match (win, mon) {
        (Some(w), Some(m)) => covers_monitor(w, m),
        _ => false,
    }
}

/// The monitor's size made even, or 1920×1080 when unknown.
pub fn monitor_size_even(size: Option<(i32, i32)>) -> (r: (u32, u32))
    ensures
        r == match size {
            Some((w, h)) => (spec_even(w), spec_even(h)),
            None => (1920u32, 1080u32),
        },
{
    match size {
        Some((w, h)) => (even(w), even(h)),
        None => (1920, 1080),
    }
}

/// Capture size of a monitor: its size made even.
pub fn monitor_target_size(size: Option<(i32, i32)>) -> (r: Result<(u32, u32), String>)
    ensures
        match size {
            Some((w, h)) => r == Ok::<(u32, u32), String>((spec_even(w), spec_even(h))),
            None => r is Err && r->Err_0@ == "monitor size unavailable"@,
        },
{
    match size {
        Some((w, h)) => Ok((even(w), even(h))),
        None => Err(owned_str("monitor size unavailable")),
    }
}

/// Capture size of a window made even: a minimised window takes its
/// monitor's size when that is known, else the window's own size.
pub fn window_target_size(iconic: bool, monitor: Option<(i32, i32)>, window: Result<
    (i32, i32),
    String,
>) -> (r: Result<(u32, u32), String>)
    ensures
        match (if iconic && monitor is Some {
            Ok(monitor->0)
        } else {
            window
        }) {
            Ok((w, h)) => r == Ok::<(u32, u32), String>((spec_even(w), spec_even(h))),
            Err(e) => r == Err::<(u32, u32), String>(e),
        },
{
    let size = if iconic && monitor.is_some() {
        match monitor {
            Some(s) => Ok(s),
            None => window,
        }
    } else {
        window
    };
    match size {
        Ok((w, h)) => Ok((even(w), even(h))),
        Err(e) => Err(e),
    }
}

/// `s` without its trailing NUL characters.
pub open spec fn trim_nuls(s: Seq<char>) -> Seq<char>
    decreases s.len(),
{
    if s.len() > 0 && s.last() == '\0' {
        trim_nuls(s.drop_last())
    } else {
        s
    }
}

/// The monitor entry of DXGI output `index` with desktop rectangle `r`:
/// sizes clamped at zero, primary when it sits at the origin, and the
/// device name without its NUL padding.
pub fn monitor_info(index: u32, r: Rect, device_name: &str) -> (m: MonitorInfo)
    ensures
        m.index == index,
        m.width == (if r.right - r.left > 0 {
            r.right - r.left
        } else {
            0
        }),
        m.height == (if r.bottom - r.top > 0 {
            r.bottom - r.top
        } else {
            0
        }),
        m.primary == (r.left == 0 && r.top == 0),
        m.device_name@ == trim_nuls(device_name@),
{
    let w: i64 = r.right as i64 - r.left as i64;
    let h: i64 = r.bottom as i64 - r.top as i64;
    let v = to_chars(device_name);
    let mut n: usize = v.len();
    assert(v@.subrange(0, n as int) =~= v@);
    while n > 0 && v[n - 1] == '\0'
        invariant
            n <= v@.len(),
            v@ == device_name@,
            trim_nuls(v@.subrange(0, n as int)) == trim_nuls(v@),
        decreases n,
    {
        assert(v@.subrange(0, n - 1) =~= v@.subrange(0, n as int).drop_last());
        n = n - 1;
    }
    let name = crate::text::from_chars(v.as_slice(), 0, n);
    proof {
        let t = v@.subrange(0, n as int);
        if n > 0 {
            assert(t.last() == v@[n - 1]);
        }
        assert(trim_nuls(t) == t);
    }
    MonitorInfo {
        index,
        width: if w > 0 {
            w as u32
        } else {
            0
        },
        height: if h > 0 {
            h as u32
        } else {
            0
        },
        primary: r.left == 0 && r.top == 0,
        device_name: name,
    }
}

/// The device name of the first listed monitor with output `index`.
pub fn monitor_device(monitors: &[MonitorInfo], index: u32) -> (r: Option<&str>)
    ensures
        match r {
            Some(d) => exists|i: int|
                0 <= i < monitors@.len() && monitors@[i].index == index && d@
                    == monitors@[i].device_name@ && forall|j: int|
                    0 <= j < i ==> #[trigger] monitors@[j].index != index,
            None => forall|j: int| 0 <= j < monitors@.len() ==> #[trigger] monitors@[j].index != index,
        },
{
    let mut k: usize = 0;
    while k < monitors.len()
        invariant
            k <= monitors@.len(),
            forall|j: int| 0 <= j < k ==> #[trigger] monitors@[j].index != index,
        decreases monitors@.len() - k,
    {
        if monitors[k].index == index {
            return Some(monitors[k].device_name.as_str());
        }
        k = k + 1;
    }
    None
}

/// Smallest width of a listed window that is not minimised.
pub const MIN_WINDOW_W: i32 = 200;

/// Smallest height of a listed window that is not minimised.
pub const MIN_WINDOW_H: i32 = 150;

/// Windows offered as capture sources: titled, visible (not cloaked), and
/// either minimised or at least 200×150.
pub open spec fn spec_keep_window(title: Seq<char>, iconic: bool, width: i32, height: i32, cloaked: u32) -> bool {
    trim(title).len() > 0 && (iconic || (width >= MIN_WINDOW_W && height >= MIN_WINDOW_H))
        && cloaked == 0
}

/// Whether a top-level window is listed as a capture source.
pub fn keep_window(title: &str, iconic: bool, width: i32, height: i32, cloaked: u32) -> (r: bool)
    ensures
        r == spec_keep_window(title@, iconic, width, height, cloaked),
{
    let v = to_chars(title);
    let (b, e) = crate::text::trim_bounds(v.as_slice());
    if b == e {
        return false;
    }
    if !iconic && (width < MIN_WINDOW_W || height < MIN_WINDOW_H) {
        return false;
    }
    cloaked == 0
}

/// Area of a rectangle (negative extents multiply as they are).
pub open spec fn area(r: Rect) -> int {
    (r.right - r.left) * (r.bottom - r.top)
}

/// The index of the largest window among `rects`: the first of those
/// with the greatest area, and only if that area is positive.
pub open spec fn is_largest(rects: Seq<Rect>, i: int) -> bool {
    &&& 0 <= i < rects.len()
    &&& area(rects[i]) > 0
    &&& forall|j: int| 0 <= j < rects.len() ==> area(#[trigger] rects[j]) <= area(rects[i])
    &&& forall|j: int| 0 <= j < i ==> area(#[trigger] rects[j]) < area(rects[i])
}

fn area_exec(r: Rect) -> (a: i128)
    ensures
        a == area(r),
{
    let w: i128 = r.right as i128 - r.left as i128;
    let h: i128 = r.bottom as i128 - r.top as i128;
    assert(-0x1_0000_0000 <= w <= 0x1_0000_0000 && -0x1_0000_0000 <= h <= 0x1_0000_0000);
    assert(-0x1_0000_0000_0000_0000 <= w * h <= 0x1_0000_0000_0000_0000) by (nonlinear_arith)
        requires
            -0x1_0000_0000 <= w <= 0x1_0000_0000,
            -0x1_0000_0000 <= h <= 0x1_0000_0000,
    ;
    w * h
}

/// Picks a process's game window: the visible window with the largest
/// area, the first one on ties; `None` when no window has a positive
/// area.
pub fn largest_window(rects: &[Rect]) -> (r: Option<usize>)
    ensures
        match r {
            Some(i) => is_largest(rects@, i as int),
            None => forall|j: int| 0 <= j < rects@.len() ==> area(#[trigger] rects@[j]) <= 0,
        },
{
    let mut best: Option<usize> = None;
    let mut best_area: i128 = 0;
    let mut k: usize = 0;
    while k < rects.len()
        invariant
            k <= rects@.len(),
            match best {
                Some(i) => i < k && best_area == area(rects@[i as int]) && best_area > 0
                    && forall|j: int| 0 <= j < i ==> area(#[trigger] rects@[j]) < best_area,
                None => best_area == 0,
            },
            forall|j: int| 0 <= j < k ==> area(#[trigger] rects@[j]) <= best_area,
        decreases rects@.len() - k,
    {
        let a = area_exec(rects[k]);
        if a > best_area {
            best = Some(k);
            best_area = a;
        }
        k = k + 1;
    }
    best
}

/// Frames stop counting as fresh after this long.
pub const FRAME_STALE_MS: u64 = 2_000;

/// A session younger than this is never recreated for staleness.
pub const SESSION_MIN_AGE_MS: u64 = 3_000;

/// The capture session is recreated when it closed, or when frames went
/// stale and it is old enough.
pub open spec fn spec_should_recreate(now_ms: u64, last_frame_ms: u64, dead: bool, age_ms: u64) -> bool {
    let since: int = if now_ms >= last_frame_ms {
        now_ms - last_frame_ms
    } else {
        0
    };
    dead || (since > FRAME_STALE_MS && age_ms > SESSION_MIN_AGE_MS)
}

/// Whether the window-capture watchdog recreates the session.
pub fn should_recreate(now_ms: u64, last_frame_ms: u64, dead: bool, age_ms: u64) -> (r: bool)
    ensures
        r == spec_should_recreate(now_ms, last_frame_ms, dead, age_ms),
{
    let stale = now_ms.saturating_sub(last_frame_ms) > FRAME_STALE_MS;
    dead || (stale && age_ms > SESSION_MIN_AGE_MS)
}

/// The paced writer's tick: `1000 / fps` milliseconds (fps at least 1),
/// and at least one.
pub fn frame_period_ms(fps: u32) -> (r: u64)
    ensures
        r == (if fps == 0 {
            1000int
        } else if fps > 1000 {
            1int
        } else {
            1000int / (fps as int)
        }),
        r >= 1,
{
    let f: u32 = if fps < 1 {
        1
    } else {
        fps
    };
    let p: u32 = 1000 / f;
    assert(f <= 1000 ==> 1000u32 / f >= 1) by (nonlinear_arith)
        requires
            f >= 1,
    ;
    assert(f > 1000 ==> 1000u32 / f == 0) by (nonlinear_arith)
        requires
            f >= 1,
    ;
    if p < 1 {
        1
    } else {
        p as u64
    }
}

/// Refreshes the outgoing frame from the latest capture when that has
/// the frame's size; otherwise the previous frame is sent again.
pub fn refresh_frame(out: &mut Vec<u8>, latest: &[u8])
    ensures
        final(out)@ == if latest@.len() == old(out)@.len() {
            latest@
        } else {
            old(out)@
        },
{
    if latest.len() != out.len() {
        return;
    }
    let mut i: usize = 0;
    while i < out.len()
        invariant
            i <= out@.len() == old(out)@.len() == latest@.len(),
            forall|j: int| 0 <= j < i ==> out@[j] == latest@[j],
            forall|j: int| i <= j < out@.len() ==> out@[j] == old(out)@[j],
        decreases out@.len() - i,
    {
        out.set(i, latest[i]);
        i = i + 1;
    }
    assert(out@ =~= latest@);
}

/// Failed texture reads tolerated before the texture is re-acquired:
/// about two seconds' worth of frames, plus one.
pub fn max_read_failures(period_ms: u64) -> (r: u32)
    ensures
        r == 2000int / (if period_ms == 0 {
            1int
        } else {
            period_ms as int
        }) + 1,
{
    let p: u64 = if period_ms < 1 {
        1
    } else {
        period_ms
    };
    let q: u64 = 2000 / p;
    assert(q <= 2000) by (nonlinear_arith)
        requires
            p >= 1,
            q == 2000u64 / p,
    ;
    (q + 1) as u32
}

/// Consecutive failed reads of the shared texture.
#[derive(Debug, Clone, Copy, PartialEq, Eq, Structural)]
pub struct ReadFailures {
    pub count: u32,
    pub max: u32,
}

impl ReadFailures {
    /// A successful read clears the count; a failed one adds to it, and
    /// reaching `max` asks for the texture to be re-acquired (and starts
    /// counting again).
    pub fn on_read(&mut self, ok: bool) -> (reacquire: bool)
        requires
            old(self).count < old(self).max,
        ensures
            final(self).max == old(self).max,
            final(self).count < final(self).max,
            reacquire == (!ok && old(self).count + 1 >= old(self).max),
            final(self).count == if ok || reacquire {
                0
            } else {
                old(self).count + 1
            },
    {
        if ok {
            self.count = 0;
            return false;
        }
        self.count = self.count + 1;
        if self.count >= self.max {
            self.count = 0;
            true
        } else {
            false
        }
    }

    /// A new texture was opened: start counting again.
    pub fn reset(&mut self)
        ensures
            *final(self) == (ReadFailures { count: 0, ..*old(self) }),
    {
        self.count = 0;
    }
}

/// A random 64-bit value (`rand::random::<u64>()`); nothing is promised
/// of it.
#[verifier::external_body]
fn random_u64() -> u64 {
    rand::random::<u64>()
}

/// The name of a capture pipe: `\\.\pipe\momentum_<kind>_` and sixteen
/// hex digits.
pub open spec fn spec_pipe_name(kind: Seq<char>, id: u64) -> Seq<char> {
    "\\\\.\\pipe\\momentum_"@ + kind + "_"@ + hex_fixed(id as nat, 16)
}

/// The pipe name for a given id.
pub fn pipe_name(kind: &str, id: u64) -> (r: String)
    ensures
        r@ == spec_pipe_name(kind@, id),
{
    let mut r = owned_str("\\\\.\\pipe\\momentum_");
    push_str(&mut r, kind);
    push_str(&mut r, "_");
    push_str(&mut r, hex_fixed_u64(id, 16).as_str());
    r
}

/// A fresh pipe name with a random id.
pub fn new_pipe_name(kind: &str) -> (r: String)
    ensures
        exists|id: u64| r@ == spec_pipe_name(kind@, id),
{
    let id = random_u64();
    pipe_name(kind, id)
}

/// Bytes the audio writer sends on a tick: what the clock owes beyond
/// what was written, rounded down to whole frames.
pub fn audio_need(target_bytes: u64, written: u64, frame_bytes: u64) -> (r: u64)
    requires
        frame_bytes > 0,
    ensures
        ({
            let owed: int = if target_bytes >= written {
                target_bytes - written
            } else {
                0
            };
            r == owed - owed % (frame_bytes as int)
        }),
{
    let owed = target_bytes.saturating_sub(written);
    assert(owed % frame_bytes <= owed) by (nonlinear_arith)
        requires
            frame_bytes > 0,
    ;
    owed - owed % frame_bytes
}

/// Samples kept in the loopback ring: about 200 ms of audio.
pub fn ring_capacity(rate: u32, channels: u16) -> (r: u64)
    ensures
        r == (rate as int) * (channels as int) / 5,
{
    assert((rate as int) * (channels as int) <= 0x1_0000_0000 * 0x1_0000) by (nonlinear_arith)
        requires
            rate <= 0x1_0000_0000,
            channels <= 0x1_0000,
    ;
    (rate as u64) * (channels as u64) / 5
}

/// Samples taken from the ring for `need` bytes of f32 samples, and
/// samples dropped afterwards to keep the ring within `cap`.
pub fn ring_plan(need: u64, ring_len: u64, cap: u64) -> (r: (u64, u64))
    ensures
        r.0 == (if need / 4 <= ring_len {
            need / 4
        } else {
            ring_len
        }),
        r.1 == (if ring_len - r.0 > cap {
            ring_len - r.0 - cap
        } else {
            0
        }),
{
    let take = if need / 4 <= ring_len {
        need / 4
    } else {
        ring_len
    };
    let left = ring_len - take;
    let drop = if left > cap {
        left - cap
    } else {
        0
    };
    (take, drop)
}

/// The audio writer never sends more than it owes, and always whole
/// frames.
pub proof fn law_audio_whole_frames(target: u64, written: u64, frame: u64, need: u64)
    requires
        frame > 0,
        need == ({
            let owed: int = if target >= written {
                target - written
            } else {
                0
            };
            owed - owed % (frame as int)
        }),
    ensures
        need % frame == 0,
        target >= written ==> written + need <= target,
        target < written ==> need == 0,
{
    let owed: int = if target >= written {
        target - written
    } else {
        0
    };
    assert((owed - owed % (frame as int)) % (frame as int) == 0) by (nonlinear_arith)
        requires
            frame > 0,
            owed >= 0,
    ;
}

} // verus!
