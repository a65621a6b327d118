//! Placing a captured frame into the fixed-size BGRA buffer that feeds
//! ffmpeg: the centred crop or letterbox, pixel format conversion, and
//! the row copy.
use vstd::prelude::*;

verus! {

/// The centred rectangle copied from a source frame into the target:
/// its size and its top-left corner on each side.
#[derive(Debug, Clone, Copy, PartialEq, Eq, Structural)]
pub struct CropPlan {
    pub copy_w: u32,
    pub copy_h: u32,
    pub src_x: u32,
    pub src_y: u32,
    pub dst_x: u32,
    pub dst_y: u32,
}

/// The centred overlap of a `src_w`×`src_h` frame and a `dst_w`×`dst_h`
/// target: larger sources are cropped, smaller ones letterboxed.
pub open spec fn spec_crop_plan(src_w: u32, src_h: u32, dst_w: u32, dst_h: u32) -> CropPlan {
    let cw = if src_w <= dst_w {
        src_w
    } else {
        dst_w
    };
    let ch = if src_h <= dst_h {
        src_h
    } else {
        dst_h
    };
    CropPlan {
        copy_w: cw,
        copy_h: ch,
        src_x: ((src_w - cw) / 2) as u32,
        src_y: ((src_h - ch) / 2) as u32,
        dst_x: ((dst_w - cw) / 2) as u32,
        dst_y: ((dst_h - ch) / 2) as u32,
    }
}

/// Computes the centred crop of a frame into the target.
pub fn crop_plan(src_w: u32, src_h: u32, dst_w: u32, dst_h: u32) -> (r: CropPlan)
    ensures
        r == spec_crop_plan(src_w, src_h, dst_w, dst_h),
{
    let cw = if src_w <= dst_w {
        src_w
    } else {
        dst_w
    };
    let ch = if src_h <= dst_h {
        src_h
    } else {
        dst_h
    };
    CropPlan {
        copy_w: cw,
        copy_h: ch,
        src_x: (src_w - cw) / 2,
        src_y: (src_h - ch) / 2,
        dst_x: (dst_w - cw) / 2,
        dst_y: (dst_h - ch) / 2,
    }
}

/// Layout of the source pixels; the target is always BGRA.
#[derive(Debug, Clone, Copy, PartialEq, Eq, Structural)]
pub enum PixelConv {
    /// Already BGRA.
    Bgra,
    /// RGBA: red and blue swap.
    Rgba,
    /// 10-bit RGB with 2-bit alpha, little-endian words: the top eight
    /// bits of each channel, opaque.
    Rgb10a2,
}

/// `DXGI_FORMAT_R10G10B10A2_TYPELESS`.
pub const DXGI_FORMAT_R10G10B10A2_TYPELESS: i32 = 23;

/// `DXGI_FORMAT_R10G10B10A2_UNORM`.
pub const DXGI_FORMAT_R10G10B10A2_UNORM: i32 = 24;

/// `DXGI_FORMAT_R8G8B8A8_TYPELESS`.
pub const DXGI_FORMAT_R8G8B8A8_TYPELESS: i32 = 27;

/// `DXGI_FORMAT_R8G8B8A8_UNORM`.
pub const DXGI_FORMAT_R8G8B8A8_UNORM: i32 = 28;

/// `DXGI_FORMAT_R8G8B8A8_UNORM_SRGB`.
pub const DXGI_FORMAT_R8G8B8A8_UNORM_SRGB: i32 = 29;

/// `DXGI_FORMAT_B8G8R8A8_UNORM`.
pub const DXGI_FORMAT_B8G8R8A8_UNORM: i32 = 87;

/// `DXGI_FORMAT_B8G8R8A8_TYPELESS`.
pub const DXGI_FORMAT_B8G8R8A8_TYPELESS: i32 = 90;

/// `DXGI_FORMAT_B8G8R8A8_UNORM_SRGB`.
pub const DXGI_FORMAT_B8G8R8A8_UNORM_SRGB: i32 = 91;

/// How a shared texture of DXGI format `fmt` is read: the format of the
/// staging copy and the conversion to BGRA; `None` for formats the
/// capture cannot read.
pub open spec fn spec_resolve_format(fmt: i32) -> Option<(i32, PixelConv)> {
    if fmt == DXGI_FORMAT_B8G8R8A8_UNORM || fmt == DXGI_FORMAT_B8G8R8A8_UNORM_SRGB || fmt
        == DXGI_FORMAT_B8G8R8A8_TYPELESS {
        Some((DXGI_FORMAT_B8G8R8A8_UNORM, PixelConv::Bgra))
    } else if fmt == DXGI_FORMAT_R8G8B8A8_UNORM || fmt == DXGI_FORMAT_R8G8B8A8_UNORM_SRGB || fmt
        == DXGI_FORMAT_R8G8B8A8_TYPELESS {
        Some((DXGI_FORMAT_R8G8B8A8_UNORM, PixelConv::Rgba))
    } else if fmt == DXGI_FORMAT_R10G10B10A2_UNORM || fmt == DXGI_FORMAT_R10G10B10A2_TYPELESS {
        Some((DXGI_FORMAT_R10G10B10A2_UNORM, PixelConv::Rgb10a2))
    } else {
        None
    }
}

/// Picks the staging format and pixel conversion for a shared texture.
pub fn resolve_format(fmt: i32) -> (r: Option<(i32, PixelConv)>)
    ensures
        r == spec_resolve_format(fmt),
{
    if fmt == DXGI_FORMAT_B8G8R8A8_UNORM || fmt == DXGI_FORMAT_B8G8R8A8_UNORM_SRGB || fmt
        == DXGI_FORMAT_B8G8R8A8_TYPELESS {
        Some((DXGI_FORMAT_B8G8R8A8_UNORM, PixelConv::Bgra))
    } else if fmt == DXGI_FORMAT_R8G8B8A8_UNORM || fmt == DXGI_FORMAT_R8G8B8A8_UNORM_SRGB || fmt
        == DXGI_FORMAT_R8G8B8A8_TYPELESS {
        Some((DXGI_FORMAT_R8G8B8A8_UNORM, PixelConv::Rgba))
    } else if fmt == DXGI_FORMAT_R10G10B10A2_UNORM || fmt == DXGI_FORMAT_R10G10B10A2_TYPELESS {
        Some((DXGI_FORMAT_R10G10B10A2_UNORM, PixelConv::Rgb10a2))
    } else {
        None
    }
}

/// A texture of another size than the target leaves bars to clear.
pub fn letterboxed(src_w: u32, src_h: u32, dst_w: u32, dst_h: u32) -> (r: bool)
    ensures
        r == (src_w != dst_w || src_h != dst_h),
{
    src_w != dst_w || src_h != dst_h
}

/// The little-endian word of four bytes.
pub open spec fn word(b0: u8, b1: u8, b2: u8, b3: u8) -> u32 {
    (b0 as u32) | ((b1 as u32) << 8u32) | ((b2 as u32) << 16u32) | ((b3 as u32) << 24u32)
}

/// The BGRA pixel made from the source pixel `b0 b1 b2 b3`.
pub open spec fn convert(conv: PixelConv, b0: u8, b1: u8, b2: u8, b3: u8) -> (u8, u8, u8, u8) {
    match conv {
        PixelConv::Bgra => (b0, b1, b2, b3),
        PixelConv::Rgba => (b2, b1, b0, b3),
        PixelConv::Rgb10a2 => {
            let v = word(b0, b1, b2, b3);
            (
                ((v >> 22u32) & 0xFFu32) as u8,
                ((v >> 12u32) & 0xFFu32) as u8,
                ((v >> 2u32) & 0xFFu32) as u8,
                0xFFu8,
            )
        },
    }
}

/// Converts one pixel to BGRA.
pub fn convert_pixel(conv: PixelConv, b0: u8, b1: u8, b2: u8, b3: u8) -> (r: (u8, u8, u8, u8))
    ensures
        r == convert(conv, b0, b1, b2, b3),
{
    match conv {
        PixelConv::Bgra => (b0, b1, b2, b3),
        PixelConv::Rgba => (b2, b1, b0, b3),
        PixelConv::Rgb10a2 => {
            let v: u32 = (b0 as u32) | ((b1 as u32) << 8u32) | ((b2 as u32) << 16u32) | ((b3 as u32)
                << 24u32);
            (
                ((v >> 22u32) & 0xFFu32) as u8,
                ((v >> 12u32) & 0xFFu32) as u8,
                ((v >> 2u32) & 0xFFu32) as u8,
                0xFFu8,
            )
        },
    }
}

/// `d` with the four bytes of `p` written at `at`.
pub open spec fn set4(d: Seq<u8>, at: int, p: (u8, u8, u8, u8)) -> Seq<u8> {
    d.update(at, p.0).update(at + 1, p.1).update(at + 2, p.2).update(at + 3, p.3)
}

/// `d` after converting the first `k` pixels of the source row starting
/// at `s` into the target row starting at `t`, left to right.
pub open spec fn write_pixels(d: Seq<u8>, src: Seq<u8>, s: int, t: int, conv: PixelConv, k: nat) -> Seq<
    u8,
>
    decreases k,
{
    if k == 0 {
        d
    } else {
        let j = s + 4 * (k - 1);
        set4(
            write_pixels(d, src, s, t, conv, (k - 1) as nat),
            t + 4 * (k - 1),
            convert(conv, src[j], src[j + 1], src[j + 2], src[j + 3]),
        )
    }
}

/// First byte of copied row `r` in the source.
pub open spec fn src_row(p: CropPlan, r: int, src_pitch: u32) -> int {
    (p.src_y + r) * src_pitch + p.src_x * 4
}

/// First byte of copied row `r` in the target.
pub open spec fn dst_row(p: CropPlan, r: int, dst_w: u32) -> int {
    (p.dst_y + r) * (dst_w * 4) + p.dst_x * 4
}

/// Row `r` lies inside both buffers.
pub open spec fn row_fits(p: CropPlan, r: int, src_pitch: u32, dst_w: u32, src_len: nat, dst_len: nat) -> bool {
    src_row(p, r, src_pitch) + p.copy_w * 4 <= src_len && dst_row(p, r, dst_w) + p.copy_w * 4
        <= dst_len
}

/// The rows copied from row `r` on: up to the first that does not fit,
/// or to the end of the rectangle.
pub open spec fn fitting_rows(
    p: CropPlan,
    src_pitch: u32,
    dst_w: u32,
    src_len: nat,
    dst_len: nat,
    r: nat,
) -> nat
    decreases p.copy_h - r,
{
    if r >= p.copy_h || !row_fits(p, r as int, src_pitch, dst_w, src_len, dst_len) {
        r
    } else {
        fitting_rows(p, src_pitch, dst_w, src_len, dst_len, r + 1)
    }
}

/// The target after copying rows `0..n`, top to bottom.
pub open spec fn blit_rows(
    d: Seq<u8>,
    src: Seq<u8>,
    p: CropPlan,
    src_pitch: u32,
    dst_w: u32,
    conv: PixelConv,
    n: nat,
) -> Seq<u8>
    decreases n,
{
    if n == 0 {
        d
    } else {
        write_pixels(
            blit_rows(d, src, p, src_pitch, dst_w, conv, (n - 1) as nat),
            src,
            src_row(p, n - 1, src_pitch),
            dst_row(p, n - 1, dst_w),
            conv,
            p.copy_w as nat,
        )
    }
}

proof fn lemma_fitting_rows(p: CropPlan, pitch: u32, dst_w: u32, sl: nat, dl: nat, r: nat)
    requires
        r <= p.copy_h,
    ensures
        r <= fitting_rows(p, pitch, dst_w, sl, dl, r) <= p.copy_h,
        forall|q: int|
            r <= q < fitting_rows(p, pitch, dst_w, sl, dl, r) ==> row_fits(
                p,
                q,
                pitch,
                dst_w,
                sl,
                dl,
            ),
        fitting_rows(p, pitch, dst_w, sl, dl, r) < p.copy_h ==> !row_fits(
            p,
            fitting_rows(p, pitch, dst_w, sl, dl, r) as int,
            pitch,
            dst_w,
            sl,
            dl,
        ),
    decreases p.copy_h - r,
{
    if r < p.copy_h && row_fits(p, r as int, pitch, dst_w, sl, dl) {
        lemma_fitting_rows(p, pitch, dst_w, sl, dl, r + 1);
    }
}

/// Copies one row of `w` pixels, converting them.
fn copy_row(dst: &mut Vec<u8>, src: &[u8], s: usize, t: usize, w: usize, conv: PixelConv)
    requires
        s + 4 * w <= src@.len(),
        t + 4 * w <= old(dst)@.len(),
    ensures
        final(dst)@.len() == old(dst)@.len(),
        final(dst)@ == write_pixels(old(dst)@, src@, s as int, t as int, conv, w as nat),
{
    let sl = src.len();
    let dl = dst.len();
    let mut k: usize = 0;
    while k < w
        invariant
            k <= w,
            sl == src@.len(),
            dl == dst@.len(),
            s + 4 * w <= src@.len(),
            t + 4 * w <= dst@.len(),
            dst@.len() == old(dst)@.len(),
            dst@ == write_pixels(old(dst)@, src@, s as int, t as int, conv, k as nat),
        decreases w - k,
    {
        assert(4 * k + 4 <= 4 * w);
        let j = s + 4 * k;
        let at = t + 4 * k;
        let px = convert_pixel(conv, src[j], src[j + 1], src[j + 2], src[j + 3]);
        dst.set(at, px.0);
        dst.set(at + 1, px.1);
        dst.set(at + 2, px.2);
        dst.set(at + 3, px.3);
        k = k + 1;
    }
}

/// Copies the crop rectangle of `src` (rows `src_pitch` bytes apart)
/// into `dst` (a `dst_w`-pixel-wide BGRA image), converting pixels; stops
/// at the first row that would fall outside either buffer.
pub fn blit(dst: &mut Vec<u8>, src: &[u8], src_pitch: u32, dst_w: u32, p: CropPlan, conv: PixelConv)
    ensures
        final(dst)@ == blit_rows(
            old(dst)@,
            src@,
            p,
            src_pitch,
            dst_w,
            conv,
            fitting_rows(p, src_pitch, dst_w, src@.len(), old(dst)@.len(), 0),
        ),
{
    let ghost n = fitting_rows(p, src_pitch, dst_w, src@.len(), old(dst)@.len(), 0);
    proof {
        lemma_fitting_rows(p, src_pitch, dst_w, src@.len(), old(dst)@.len(), 0);
    }
    let w: u128 = p.copy_w as u128 * 4;
    let mut row: u32 = 0;
    while row < p.copy_h
        invariant
            row <= n <= p.copy_h,
            n == fitting_rows(p, src_pitch, dst_w, src@.len(), old(dst)@.len(), 0),
            forall|q: int|
                0 <= q < n ==> row_fits(p, q, src_pitch, dst_w, src@.len(), old(dst)@.len()),
            n < p.copy_h ==> !row_fits(p, n as int, src_pitch, dst_w, src@.len(), old(dst)@.len()),
            w == p.copy_w * 4,
            dst@.len() == old(dst)@.len(),
            dst@ == blit_rows(old(dst)@, src@, p, src_pitch, dst_w, conv, row as nat),
        decreases p.copy_h - row,
    {
        assert(((p.src_y + row) as u128) * (src_pitch as u128) <= 0x2_0000_0000u128
            * 0x1_0000_0000u128) by (nonlinear_arith)
            requires
                p.src_y + row <= 0x2_0000_0000u128,
                src_pitch <= 0x1_0000_0000u128,
        ;
        assert(((p.dst_y + row) as u128) * (dst_w as u128 * 4) <= 0x2_0000_0000u128
            * 0x4_0000_0000u128) by (nonlinear_arith)
            requires
                p.dst_y + row <= 0x2_0000_0000u128,
                dst_w as u128 * 4 <= 0x4_0000_0000u128,
        ;
        let s: u128 = (p.src_y as u128 + row as u128) * src_pitch as u128 + p.src_x as u128 * 4;
        let t: u128 = (p.dst_y as u128 + row as u128) * (dst_w as u128 * 4) + p.dst_x as u128 * 4;
        if s + w > src.len() as u128 || t + w > dst.len() as u128 {
            assert(!row_fits(p, row as int, src_pitch, dst_w, src@.len(), old(dst)@.len()));
            assert(row == n);
            return;
        }
        assert(row_fits(p, row as int, src_pitch, dst_w, src@.len(), old(dst)@.len()));
        assert(row < n);
        copy_row(dst, src, s as usize, t as usize, p.copy_w as usize, conv);
        row = row + 1;
    }
}

/// Byte `q` (0..4) of the BGRA pixel converted from the source pixel at
/// byte `at`.
pub open spec fn px_byte(conv: PixelConv, src: Seq<u8>, at: int, q: int) -> u8 {
    let c = convert(conv, src[at], src[at + 1], src[at + 2], src[at + 3]);
    if q == 0 {
        c.0
    } else if q == 1 {
        c.1
    } else if q == 2 {
        c.2
    } else {
        c.3
    }
}

/// Target byte `q` of pixel `j` of copied row `r`.
pub open spec fn dst_at(p: CropPlan, dst_w: u32, r: int, j: int, q: int) -> int {
    dst_row(p, r, dst_w) + 4 * j + q
}

/// Source byte of pixel `j` of copied row `r`.
pub open spec fn src_at(p: CropPlan, src_pitch: u32, r: int, j: int) -> int {
    src_row(p, r, src_pitch) + 4 * j
}

proof fn lemma_write_pixels(d: Seq<u8>, src: Seq<u8>, s: int, t: int, conv: PixelConv, k: nat)
    requires
        0 <= t,
        t + 4 * k <= d.len(),
    ensures
        write_pixels(d, src, s, t, conv, k).len() == d.len(),
        forall|i: int|
            0 <= i < d.len() && !(t <= i < t + 4 * k) ==> #[trigger] write_pixels(
                d,
                src,
                s,
                t,
                conv,
                k,
            )[i] == d[i],
        forall|j: int, q: int|
            0 <= j < k && 0 <= q < 4 ==> #[trigger] write_pixels(d, src, s, t, conv, k)[t + 4 * j
                + q] == px_byte(conv, src, s + 4 * j, q),
    decreases k,
{
    if k > 0 {
        lemma_write_pixels(d, src, s, t, conv, (k - 1) as nat);
        let prev = write_pixels(d, src, s, t, conv, (k - 1) as nat);
        let at = t + 4 * (k - 1);
        let j0 = s + 4 * (k - 1);
        let cur = write_pixels(d, src, s, t, conv, k);
        assert(cur == set4(prev, at, convert(conv, src[j0], src[j0 + 1], src[j0 + 2], src[j0 + 3])));
        assert forall|j: int, q: int| 0 <= j < k && 0 <= q < 4 implies #[trigger] cur[t + 4 * j + q]
            == px_byte(conv, src, s + 4 * j, q) by {
            if j < k - 1 {
                assert(prev[t + 4 * j + q] == px_byte(conv, src, s + 4 * j, q));
            }
        }
    }
}

/// After the copy, each pixel of the rectangle's copied rows holds the
/// converted source pixel, and every other byte of the target is as it
/// was (rows are disjoint because the rectangle fits the target's width).
pub proof fn law_blit_places_pixels(
    d: Seq<u8>,
    src: Seq<u8>,
    p: CropPlan,
    src_pitch: u32,
    dst_w: u32,
    conv: PixelConv,
    n: nat,
)
    requires
        p.dst_x + p.copy_w <= dst_w,
        n <= p.copy_h,
        forall|r: int| 0 <= r < n ==> row_fits(p, r, src_pitch, dst_w, src.len(), d.len()),
    ensures
        blit_rows(d, src, p, src_pitch, dst_w, conv, n).len() == d.len(),
        forall|r: int, j: int, q: int|
            0 <= r < n && 0 <= j < p.copy_w && 0 <= q < 4 ==> blit_rows(
                d,
                src,
                p,
                src_pitch,
                dst_w,
                conv,
                n,
            )[#[trigger] dst_at(p, dst_w, r, j, q)] == px_byte(conv, src, src_at(p, src_pitch, r, j), q),
        forall|i: int|
            0 <= i < d.len() && (forall|r: int|
                0 <= r < n ==> !(#[trigger] dst_row(p, r, dst_w) <= i < dst_row(p, r, dst_w) + 4
                    * p.copy_w))
                ==> #[trigger] blit_rows(d, src, p, src_pitch, dst_w, conv, n)[i] == d[i],
    decreases n,
{
    if n > 0 {
        let m = (n - 1) as nat;
        law_blit_places_pixels(d, src, p, src_pitch, dst_w, conv, m);
        let prev = blit_rows(d, src, p, src_pitch, dst_w, conv, m);
        let t = dst_row(p, m as int, dst_w);
        let s = src_row(p, m as int, src_pitch);
        assert(row_fits(p, m as int, src_pitch, dst_w, src.len(), d.len()));
        assert(t >= 0) by (nonlinear_arith)
            requires
                t == (p.dst_y + m) * (dst_w * 4) + p.dst_x * 4,
                m >= 0,
        ;
        lemma_write_pixels(prev, src, s, t, conv, p.copy_w as nat);
        let cur = blit_rows(d, src, p, src_pitch, dst_w, conv, n);
        assert(cur == write_pixels(prev, src, s, t, conv, p.copy_w as nat));
        // Earlier rows end before row `m` starts.
        assert forall|r: int| 0 <= r < m implies dst_row(p, r, dst_w) + 4 * p.copy_w <= t by {
            assert((p.dst_y + r) * (dst_w * 4) + dst_w * 4 <= (p.dst_y + m) * (dst_w * 4))
                by (nonlinear_arith)
                requires
                    r < m,
                    0 <= r,
            ;
        }
        assert forall|r: int, j: int, q: int|
            0 <= r < n && 0 <= j < p.copy_w && 0 <= q < 4 implies cur[#[trigger] dst_at(
                p,
                dst_w,
                r,
                j,
                q,
            )] == px_byte(conv, src, src_at(p, src_pitch, r, j), q) by {
            if r < m {
                assert(dst_row(p, r, dst_w) + 4 * p.copy_w <= t);
                assert(prev[dst_at(p, dst_w, r, j, q)] == px_byte(
                    conv,
                    src,
                    src_at(p, src_pitch, r, j),
                    q,
                ));
                assert(0 <= dst_at(p, dst_w, r, j, q)) by (nonlinear_arith)
                    requires
                        dst_at(p, dst_w, r, j, q) == (p.dst_y + r) * (dst_w * 4) + p.dst_x * 4 + 4
                            * j + q,
                        r >= 0,
                        j >= 0,
                        q >= 0,
                ;
                assert(cur[dst_at(p, dst_w, r, j, q)] == prev[dst_at(p, dst_w, r, j, q)]);
            } else {
                assert(cur[t + 4 * j + q] == px_byte(conv, src, s + 4 * j, q));
            }
        }
        assert forall|i: int|
            0 <= i < d.len() && (forall|r: int|
                0 <= r < n ==> !(#[trigger] dst_row(p, r, dst_w) <= i < dst_row(p, r, dst_w) + 4
                    * p.copy_w))
                implies #[trigger] cur[i] == d[i] by {
            assert(!(dst_row(p, m as int, dst_w) <= i < dst_row(p, m as int, dst_w) + 4 * p.copy_w));
            assert(cur[i] == prev[i]);
        }
    }
}

/// Sets every byte to zero (the letterbox bars).
pub fn zero_fill(dst: &mut Vec<u8>)
    ensures
        final(dst)@.len() == old(dst)@.len(),
        forall|i: int| 0 <= i < final(dst)@.len() ==> final(dst)@[i] == 0,
{
    let mut i: usize = 0;
    while i < dst.len()
        invariant
            i <= dst@.len() == old(dst)@.len(),
            forall|j: int| 0 <= j < i ==> dst@[j] == 0,
        decreases dst@.len() - i,
    {
        dst.set(i, 0);
        i = i + 1;
    }
}

/// The copied rectangle lies inside both frames and is centred in each:
/// the margins on the two sides differ by at most one pixel.
pub proof fn law_crop_is_centred(src_w: u32, src_h: u32, dst_w: u32, dst_h: u32)
    ensures
        ({
            let p = spec_crop_plan(src_w, src_h, dst_w, dst_h);
            &&& p.src_x + p.copy_w <= src_w && p.src_y + p.copy_h <= src_h
            &&& p.dst_x + p.copy_w <= dst_w && p.dst_y + p.copy_h <= dst_h
            &&& 0 <= (src_w - p.copy_w - p.src_x) - p.src_x <= 1
            &&& 0 <= (dst_w - p.copy_w - p.dst_x) - p.dst_x <= 1
            &&& 0 <= (src_h - p.copy_h - p.src_y) - p.src_y <= 1
            &&& 0 <= (dst_h - p.copy_h - p.dst_y) - p.dst_y <= 1
            &&& (p.copy_w == src_w || p.copy_w == dst_w) && p.copy_w <= src_w && p.copy_w <= dst_w
            &&& (p.copy_h == src_h || p.copy_h == dst_h) && p.copy_h <= src_h && p.copy_h <= dst_h
        }),
{
}

/// Every texture of the three readable families resolves: the BGRA
/// formats stage as `B8G8R8A8_UNORM` and pass through, the RGBA formats
/// stage as `R8G8B8A8_UNORM` and swap red and blue, the 10-bit formats
/// stage as `R10G10B10A2_UNORM` and are unpacked; every other format is
/// refused.
pub proof fn law_readable_formats(fmt: i32)
    ensures
        (fmt == 87 || fmt == 90 || fmt == 91) <==> spec_resolve_format(fmt) == Some((87i32, PixelConv::Bgra)),
        (fmt == 28 || fmt == 29 || fmt == 27) <==> spec_resolve_format(fmt) == Some((28i32, PixelConv::Rgba)),
        (fmt == 24 || fmt == 23) <==> spec_resolve_format(fmt) == Some((24i32, PixelConv::Rgb10a2)),
        !(fmt == 87 || fmt == 90 || fmt == 91 || fmt == 28 || fmt == 29 || fmt == 27 || fmt == 24 || fmt == 23)
            <==> spec_resolve_format(fmt) is None,
{
}

/// The staging format a texture resolves to is itself readable, and
/// reads the same way: resolving it again gives the same staging format
/// and the same conversion.
pub proof fn law_staging_format_is_stable(fmt: i32)
    ensures
        spec_resolve_format(fmt) matches Some((staging, conv)) ==> spec_resolve_format(staging) == Some(
            (staging, conv),
        ),
{
}

} // verus!
