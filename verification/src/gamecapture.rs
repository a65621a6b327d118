//! Game capture through the OBS graphics hook: the shared-memory
//! structures of the hook protocol, kernel-object names, the parser of
//! the offsets probe's output, and the injection and texture decisions.
use crate::text::{
    dec, dec_u64, find_char, from_chars, owned_str, push_str, str_eq, to_chars,
    trim, trim_bounds_in,
};
use vstd::prelude::*;

verus! {

/// Event that asks the hook to (re)start capturing.
pub const EVENT_CAPTURE_RESTART: &'static str = "CaptureHook_Restart";

/// Event that tells the hook its configuration is ready.
pub const EVENT_HOOK_INIT: &'static str = "CaptureHook_Initialize";

/// Mutex whose existence keeps the hook alive.
pub const WINDOW_HOOK_KEEPALIVE: &'static str = "CaptureHook_KeepAlive";

/// Shared memory holding `HookInfo`.
pub const SHMEM_HOOK_INFO: &'static str = "CaptureHook_HookInfo";

/// Shared memory holding `ShtexData`.
pub const SHMEM_TEXTURE: &'static str = "CaptureHook_Texture";

/// `capture_type` of the shared-texture path (the only one handled).
pub const CAPTURE_TYPE_TEXTURE: u32 = 1;

#[derive(Clone, Copy, Debug, PartialEq, Eq, Structural)]
pub struct D3d8Offsets {
    pub present: u32,
}

#[derive(Clone, Copy, Debug, PartialEq, Eq, Structural)]
pub struct D3d9Offsets {
    pub present: u32,
    pub present_ex: u32,
    pub present_swap: u32,
    pub d3d9_clsoff: u32,
    pub is_d3d9ex_clsoff: u32,
}

#[derive(Clone, Copy, Debug, PartialEq, Eq, Structural)]
pub struct DxgiOffsets {
    pub present: u32,
    pub resize: u32,
    pub present1: u32,
}

#[derive(Clone, Copy, Debug, PartialEq, Eq, Structural)]
pub struct DdrawOffsets {
    pub surface_create: u32,
    pub surface_restore: u32,
    pub surface_release: u32,
    pub surface_unlock: u32,
    pub surface_blt: u32,
    pub surface_flip: u32,
    pub surface_set_palette: u32,
    pub palette_set_entries: u32,
}

#[derive(Clone, Copy, Debug, PartialEq, Eq, Structural)]
pub struct DxgiOffsets2 {
    pub release: u32,
}

#[derive(Clone, Copy, Debug, PartialEq, Eq, Structural)]
pub struct D3d12Offsets {
    pub execute_command_lists: u32,
}

/// Function offsets inside the graphics DLLs, probed per bitness.
#[derive(Clone, Copy, Debug, PartialEq, Eq, Structural)]
pub struct GraphicsOffsets {
    pub d3d8: D3d8Offsets,
    pub d3d9: D3d9Offsets,
    pub dxgi: DxgiOffsets,
    pub ddraw: DdrawOffsets,
    pub dxgi2: DxgiOffsets2,
    pub d3d12: D3d12Offsets,
}

/// The hook's shared configuration and status block. C `bool` fields
/// are kept as `u8` (nonzero is true).
#[derive(Clone, Copy)]
pub struct HookInfo {
    pub hook_ver_major: u32,
    pub hook_ver_minor: u32,
    pub capture_type: u32,
    pub window: u32,
    pub format: u32,
    pub cx: u32,
    pub cy: u32,
    pub unused_base_cx: u32,
    pub unused_base_cy: u32,
    pub pitch: u32,
    pub map_id: u32,
    pub map_size: u32,
    pub flip: u8,
    pub frame_interval: u64,
    pub unused_use_scale: u8,
    pub force_shmem: u8,
    pub capture_overlay: u8,
    pub allow_srgb_alias: u8,
    pub offsets: GraphicsOffsets,
    pub reserved: [u32; 126],
}

/// The shared texture's handle, published by the hook.
#[derive(Clone, Copy, Debug, PartialEq, Eq, Structural)]
pub struct ShtexData {
    pub tex_handle: u32,
}

impl Default for D3d8Offsets {
    fn default() -> (r: Self)
        ensures
            r == (D3d8Offsets { present: 0 }),
    {
        D3d8Offsets { present: 0 }
    }
}

impl Default for D3d9Offsets {
    fn default() -> (r: Self)
        ensures
            r == (D3d9Offsets {
                present: 0,
                present_ex: 0,
                present_swap: 0,
                d3d9_clsoff: 0,
                is_d3d9ex_clsoff: 0,
            }),
    {
        D3d9Offsets {
            present: 0,
            present_ex: 0,
            present_swap: 0,
            d3d9_clsoff: 0,
            is_d3d9ex_clsoff: 0,
        }
    }
}

impl Default for DxgiOffsets {
    fn default() -> (r: Self)
        ensures
            r == (DxgiOffsets { present: 0, resize: 0, present1: 0 }),
    {
        DxgiOffsets { present: 0, resize: 0, present1: 0 }
    }
}

impl Default for DdrawOffsets {
    fn default() -> (r: Self)
        ensures
            r == (DdrawOffsets {
                surface_create: 0,
                surface_restore: 0,
                surface_release: 0,
                surface_unlock: 0,
                surface_blt: 0,
                surface_flip: 0,
                surface_set_palette: 0,
                palette_set_entries: 0,
            }),
    {
        DdrawOffsets {
            surface_create: 0,
            surface_restore: 0,
            surface_release: 0,
            surface_unlock: 0,
            surface_blt: 0,
            surface_flip: 0,
            surface_set_palette: 0,
            palette_set_entries: 0,
        }
    }
}

impl Default for DxgiOffsets2 {
    fn default() -> (r: Self)
        ensures
            r == (DxgiOffsets2 { release: 0 }),
    {
        DxgiOffsets2 { release: 0 }
    }
}

impl Default for D3d12Offsets {
    fn default() -> (r: Self)
        ensures
            r == (D3d12Offsets { execute_command_lists: 0 }),
    {
        D3d12Offsets { execute_command_lists: 0 }
    }
}

/// All offsets zero.
pub open spec fn zero_offsets() -> GraphicsOffsets {
    GraphicsOffsets {
        d3d8: D3d8Offsets { present: 0 },
        d3d9: D3d9Offsets {
            present: 0,
            present_ex: 0,
            present_swap: 0,
            d3d9_clsoff: 0,
            is_d3d9ex_clsoff: 0,
        },
        dxgi: DxgiOffsets { present: 0, resize: 0, present1: 0 },
        ddraw: DdrawOffsets {
            surface_create: 0,
            surface_restore: 0,
            surface_release: 0,
            surface_unlock: 0,
            surface_blt: 0,
            surface_flip: 0,
            surface_set_palette: 0,
            palette_set_entries: 0,
        },
        dxgi2: DxgiOffsets2 { release: 0 },
        d3d12: D3d12Offsets { execute_command_lists: 0 },
    }
}

impl Default for ShtexData {
    fn default() -> (r: Self)
        ensures
            r == (ShtexData { tex_handle: 0 }),
    {
        ShtexData { tex_handle: 0 }
    }
}

impl Default for GraphicsOffsets {
    fn default() -> (r: Self)
        ensures
            r == zero_offsets(),
    {
        GraphicsOffsets {
            d3d8: D3d8Offsets::default(),
            d3d9: D3d9Offsets::default(),
            dxgi: DxgiOffsets::default(),
            ddraw: DdrawOffsets::default(),
            dxgi2: DxgiOffsets2::default(),
            d3d12: D3d12Offsets::default(),
        }
    }
}

/// Arms the hook: the probed offsets, no overlay capture, no forced
/// shared-memory path, no scaling, sRGB aliasing allowed, and the frame
/// interval for `fps`.
pub fn arm_hook_info(hi: &mut HookInfo, offsets: GraphicsOffsets, fps: u32)
    ensures
        *final(hi) == (HookInfo {
            offsets,
            capture_overlay: 0,
            force_shmem: 0,
            unused_use_scale: 0,
            allow_srgb_alias: 1,
            frame_interval: 1_000_000_000u64 / (if fps < 1 {
                1u64
            } else {
                fps as u64
            }),
            ..*old(hi)
        }),
{
    hi.offsets = offsets;
    hi.capture_overlay = 0;
    hi.force_shmem = 0;
    hi.unused_use_scale = 0;
    hi.allow_srgb_alias = 1;
    hi.frame_interval = frame_interval_ns(fps);
}

/// A kernel-object name: the base followed by the target process id.
pub fn name_with_id(base: &str, pid: u32) -> (r: String)
    ensures
        r@ == base@ + dec(pid as nat),
{
    let mut r = owned_str(base);
    push_str(&mut r, dec_u64(pid as u64).as_str());
    r
}

/// Name of the shared memory holding texture `map_id` of window `hwnd`.
pub fn texture_map_name(hwnd: u64, map_id: u32) -> (r: String)
    ensures
        r@ == SHMEM_TEXTURE@ + "_"@ + dec(hwnd as nat) + "_"@ + dec(map_id as nat),
{
    let mut r = owned_str(SHMEM_TEXTURE);
    push_str(&mut r, "_");
    push_str(&mut r, dec_u64(hwnd).as_str());
    push_str(&mut r, "_");
    push_str(&mut r, dec_u64(map_id as u64).as_str());
    r
}

/// Whether the hook reports a usable shared texture: a nonzero size on
/// the texture path. Otherwise the capture must be restarted.
pub fn texture_ready(capture_type: u32, cx: u32, cy: u32) -> (r: bool)
    ensures
        r == (cx != 0 && cy != 0 && capture_type == CAPTURE_TYPE_TEXTURE),
{
    cx != 0 && cy != 0 && capture_type == CAPTURE_TYPE_TEXTURE
}

/// Nanoseconds between captured frames at `fps` (at least 1 fps).
pub fn frame_interval_ns(fps: u32) -> (r: u64)
    ensures
        r == 1_000_000_000u64 / (if fps < 1 {
            1u64
        } else {
            fps as u64
        }),
{
    let f: u64 = if fps < 1 {
        1
    } else {
        fps as u64
    };
    1_000_000_000u64 / f
}

/// How the graphics hook gets into the target process.
#[derive(Debug, Clone, Copy, PartialEq, Eq)]
pub enum InjectPlan {
    /// Load the hook DLL with a remote thread from this process.
    Direct { hook_dll: &'static str },
    /// Run the helper executable with the hook path, the anti-cheat flag
    /// and the id (thread id for anti-cheat-safe injection, else pid).
    Helper { hook_dll: &'static str, helper: &'static str, anticheat_flag: &'static str, id: u32 },
}

pub open spec fn hook_dll_name(is64: bool) -> Seq<char> {
    if is64 {
        "graphics-hook64.dll"@
    } else {
        "graphics-hook32.dll"@
    }
}

pub open spec fn helper_name(is64: bool) -> Seq<char> {
    if is64 {
        "inject-helper64.exe"@
    } else {
        "inject-helper32.exe"@
    }
}

/// Direct injection only when this process and the target have the same
/// bitness and no anti-cheat-safe injection is asked for; otherwise the
/// helper of the target's bitness does it.
pub fn inject_plan(pid: u32, thread_id: u32, process_is_64bit: bool, anticheat: bool, host_is_64bit: bool) -> (r:
    InjectPlan)
    ensures
        match r {
            InjectPlan::Direct { hook_dll } => host_is_64bit == process_is_64bit && !anticheat
                && hook_dll@ == hook_dll_name(process_is_64bit),
            InjectPlan::Helper { hook_dll, helper, anticheat_flag, id } => !(host_is_64bit
                == process_is_64bit && !anticheat) && hook_dll@ == hook_dll_name(process_is_64bit)
                && helper@ == helper_name(process_is_64bit) && anticheat_flag@ == (if anticheat {
                "1"@
            } else {
                "0"@
            }) && id == (if anticheat {
                thread_id
            } else {
                pid
            }),
        },
{
    let hook: &'static str = if process_is_64bit {
        "graphics-hook64.dll"
    } else {
        "graphics-hook32.dll"
    };
    if host_is_64bit == process_is_64bit && !anticheat {
        InjectPlan::Direct { hook_dll: hook }
    } else {
        let helper: &'static str = if process_is_64bit {
            "inject-helper64.exe"
        } else {
            "inject-helper32.exe"
        };
        InjectPlan::Helper {
            hook_dll: hook,
            helper,
            anticheat_flag: if anticheat {
                "1"
            } else {
                "0"
            },
            id: if anticheat {
                thread_id
            } else {
                pid
            },
        }
    }
}

/// The offsets-probe executable for the target's bitness.
pub fn offsets_probe_name(is64: bool) -> (r: &'static str)
    ensures
        r@ == (if is64 {
            "get-graphics-offsets64.exe"@
        } else {
            "get-graphics-offsets32.exe"@
        }),
{
    if is64 {
        "get-graphics-offsets64.exe"
    } else {
        "get-graphics-offsets32.exe"
    }
}

// ---------------------------------------------------------------------
// Parsing the offsets probe output: INI-like `[section]` and `key=0x..`
// lines.

/// `str::lines`: split at `\n`, dropping a `\r` right before it; a final
/// line ending adds no empty line.
pub open spec fn lines(s: Seq<char>) -> Seq<Seq<char>>
    decreases s.len(),
{
    if s.len() == 0 {
        Seq::empty()
    } else {
        proof {
            crate::text::lemma_find_char_bound(s, '\n');
        }
        match find_char(s, '\n') {
            Some(i) => seq![strip_cr(s.subrange(0, i as int))] + lines(
                s.subrange((i + 1) as int, s.len() as int),
            ),
            None => seq![s],
        }
    }
}

/// A line without its trailing `\r`.
pub open spec fn strip_cr(l: Seq<char>) -> Seq<char> {
    if l.len() > 0 && l.last() == '\r' {
        l.drop_last()
    } else {
        l
    }
}

/// Why `u32::from_str_radix(_, 16)` rejects a string.
#[derive(Debug, Clone, Copy, PartialEq, Eq, Structural)]
pub enum HexError {
    Empty,
    InvalidDigit,
    Overflow,
}

pub open spec fn hex_value(c: char) -> Option<nat> {
    if '0' <= c && c <= '9' {
        Some((c as nat - 48) as nat)
    } else if 'a' <= c && c <= 'f' {
        Some((c as nat - 87) as nat)
    } else if 'A' <= c && c <= 'F' {
        Some((c as nat - 55) as nat)
    } else {
        None
    }
}

/// Left-to-right hex accumulation: the first bad digit or overflow
/// decides the error.
pub open spec fn hex_scan(d: Seq<char>, acc: nat) -> Result<nat, HexError>
    decreases d.len(),
{
    if d.len() == 0 {
        Ok(acc)
    } else {
        match hex_value(d[0]) {
            None => Err(HexError::InvalidDigit),
            Some(v) => if acc * 16 + v > u32::MAX {
                Err(HexError::Overflow)
            } else {
                hex_scan(d.drop_first(), acc * 16 + v)
            },
        }
    }
}

/// `u32::from_str_radix(s, 16)`.
pub open spec fn from_hex(s: Seq<char>) -> Result<u32, HexError> {
    if s.len() == 0 {
        Err(HexError::Empty)
    } else if s[0] == '+' && s.len() == 1 {
        Err(HexError::InvalidDigit)
    } else {
        match hex_scan(if s[0] == '+' { s.drop_first() } else { s }, 0) {
            Ok(v) => Ok(v as u32),
            Err(e) => Err(e),
        }
    }
}

/// The text of a `ParseIntError`.
pub open spec fn hex_error_text(e: HexError) -> Seq<char> {
    match e {
        HexError::Empty => "cannot parse integer from empty string"@,
        HexError::InvalidDigit => "invalid digit found in string"@,
        HexError::Overflow => "number too large to fit in target type"@,
    }
}

/// `s` without a leading `0x` or `0X`.
pub open spec fn strip_hex_prefix(s: Seq<char>) -> Seq<char> {
    if s.len() >= 2 && s[0] == '0' && (s[1] == 'x' || s[1] == 'X') {
        s.subrange(2, s.len() as int)
    } else {
        s
    }
}

/// A hex offset, with or without a `0x` prefix.
pub open spec fn spec_parse_hex(s: Seq<char>) -> Result<u32, Seq<char>> {
    let t = strip_hex_prefix(s);
    match from_hex(t) {
        Ok(v) => Ok(v),
        Err(e) => Err("bad hex '"@ + t + "': "@ + hex_error_text(e)),
    }
}

/// The offsets with the field named by `section` and `key` set to `val`
/// (unknown names change nothing).
pub open spec fn set_offset(o: GraphicsOffsets, section: Seq<char>, key: Seq<char>, val: u32) -> GraphicsOffsets {
    if section == "d3d8"@ && key == "present"@ {
        GraphicsOffsets { d3d8: D3d8Offsets { present: val }, ..o }
    } else if section == "d3d9"@ && key == "present"@ {
        GraphicsOffsets { d3d9: D3d9Offsets { present: val, ..o.d3d9 }, ..o }
    } else if section == "d3d9"@ && key == "present_ex"@ {
        GraphicsOffsets { d3d9: D3d9Offsets { present_ex: val, ..o.d3d9 }, ..o }
    } else if section == "d3d9"@ && key == "present_swap"@ {
        GraphicsOffsets { d3d9: D3d9Offsets { present_swap: val, ..o.d3d9 }, ..o }
    } else if section == "d3d9"@ && key == "d3d9_clsoff"@ {
        GraphicsOffsets { d3d9: D3d9Offsets { d3d9_clsoff: val, ..o.d3d9 }, ..o }
    } else if section == "d3d9"@ && key == "is_d3d9ex_clsoff"@ {
        GraphicsOffsets { d3d9: D3d9Offsets { is_d3d9ex_clsoff: val, ..o.d3d9 }, ..o }
    } else if section == "dxgi"@ && key == "present"@ {
        GraphicsOffsets { dxgi: DxgiOffsets { present: val, ..o.dxgi }, ..o }
    } else if section == "dxgi"@ && key == "present1"@ {
        GraphicsOffsets { dxgi: DxgiOffsets { present1: val, ..o.dxgi }, ..o }
    } else if section == "dxgi"@ && key == "resize"@ {
        GraphicsOffsets { dxgi: DxgiOffsets { resize: val, ..o.dxgi }, ..o }
    } else if section == "dxgi"@ && key == "release"@ {
        GraphicsOffsets { dxgi2: DxgiOffsets2 { release: val }, ..o }
    } else {
        o
    }
}

/// The section name of a trimmed `[name]` line.
pub open spec fn section_of(t: Seq<char>) -> Option<Seq<char>> {
    if t.len() >= 2 && t[0] == '[' && t.last() == ']' {
        Some(t.subrange(1, t.len() - 1))
    } else {
        None
    }
}

/// Reads the lines in order, starting in `section` with offsets `o`.
pub open spec fn parse_lines(ls: Seq<Seq<char>>, section: Seq<char>, o: GraphicsOffsets) -> Result<
    GraphicsOffsets,
    Seq<char>,
>
    decreases ls.len(),
{
    if ls.len() == 0 {
        Ok(o)
    } else {
        let t = trim(ls[0]);
        match section_of(t) {
            Some(inner) => parse_lines(ls.drop_first(), inner, o),
            None => match split_once_eq(t) {
                None => parse_lines(ls.drop_first(), section, o),
                Some((k, v)) => match spec_parse_hex(trim(v)) {
                    Err(e) => Err(e),
                    Ok(val) => parse_lines(ls.drop_first(), section, set_offset(o, section, trim(k), val)),
                },
            },
        }
    }
}

/// `split_once('=')`.
pub open spec fn split_once_eq(t: Seq<char>) -> Option<(Seq<char>, Seq<char>)> {
    crate::text::split_once(t, '=')
}

/// The offsets probe's output: every recognised `key=hex` in its
/// section; fails on the first bad hex value, or when `dxgi.present` is
/// missing (zero).
pub open spec fn spec_parse_offsets(text: Seq<char>) -> Result<GraphicsOffsets, Seq<char>> {
    match parse_lines(lines(text), Seq::empty(), zero_offsets()) {
        Err(e) => Err(e),
        Ok(o) => if o.dxgi.present == 0 {
            Err("offsets probe returned no dxgi.present"@)
        } else {
            Ok(o)
        },
    }
}

fn hex_digit(c: char) -> (r: Option<u32>)
    ensures
        match hex_value(c) {
            Some(v) => r == Some(v as u32),
            None => r is None,
        },
{
    if '0' <= c && c <= '9' {
        Some((c as u32) - 48)
    } else if 'a' <= c && c <= 'f' {
        Some((c as u32) - 87)
    } else if 'A' <= c && c <= 'F' {
        Some((c as u32) - 55)
    } else {
        None
    }
}

proof fn lemma_hex_scan_step(d: Seq<char>, acc: nat, k: int)
    requires
        0 <= k < d.len(),
    ensures
        hex_scan(d.subrange(k, d.len() as int), acc) == (match hex_value(d[k]) {
            None => Err(HexError::InvalidDigit),
            Some(v) => if acc * 16 + v > u32::MAX {
                Err(HexError::Overflow)
            } else {
                hex_scan(d.subrange(k + 1, d.len() as int), acc * 16 + v)
            },
        }),
{
    let t = d.subrange(k, d.len() as int);
    assert(t[0] == d[k]);
    assert(t.drop_first() =~= d.subrange(k + 1, d.len() as int));
}

/// `u32::from_str_radix(v[from..to], 16)`.
fn from_hex_in(v: &[char], from: usize, to: usize) -> (r: Result<u32, HexError>)
    requires
        from <= to <= v@.len(),
    ensures
        r == from_hex(v@.subrange(from as int, to as int)),
{
    let ghost s = v@.subrange(from as int, to as int);
    if from == to {
        return Err(HexError::Empty);
    }
    assert(s[0] == v@[from as int]);
    if v[from] == '+' && to - from == 1 {
        return Err(HexError::InvalidDigit);
    }
    let start = if v[from] == '+' {
        from + 1
    } else {
        from
    };
    let ghost d = v@.subrange(start as int, to as int);
    assert(d =~= (if s[0] == '+' {
        s.drop_first()
    } else {
        s
    }));
    let mut acc: u32 = 0;
    let mut i: usize = start;
    while i < to
        invariant
            start <= i <= to <= v@.len(),
            d == v@.subrange(start as int, to as int),
            s == v@.subrange(from as int, to as int),
            s.len() > 0,
            !(s[0] == '+' && s.len() == 1),
            d == (if s[0] == '+' {
                s.drop_first()
            } else {
                s
            }),
            hex_scan(d, 0) == hex_scan(v@.subrange(i as int, to as int), acc as nat),
        decreases to - i,
    {
        proof {
            lemma_hex_scan_step(v@.subrange(0, to as int), acc as nat, i as int);
            assert(v@.subrange(0, to as int).subrange(i as int, to as int) =~= v@.subrange(
                i as int,
                to as int,
            ));
            assert(v@.subrange(0, to as int).subrange(i + 1, to as int) =~= v@.subrange(
                i + 1,
                to as int,
            ));
        }
        match hex_digit(v[i]) {
            None => {
                return Err(HexError::InvalidDigit);
            },
            Some(dv) => {
                if acc > (u32::MAX - dv) / 16 {
                    assert(acc * 16 + dv > u32::MAX) by (nonlinear_arith)
                        requires
                            acc > (u32::MAX - dv) / 16,
                            dv <= 15,
                    ;
                    return Err(HexError::Overflow);
                }
                assert(acc * 16 + dv <= u32::MAX) by (nonlinear_arith)
                    requires
                        acc <= (u32::MAX - dv) / 16,
                        dv <= 15,
                ;
                acc = acc * 16 + dv;
            },
        }
        i = i + 1;
    }
    assert(v@.subrange(to as int, to as int) =~= Seq::<char>::empty());
    Ok(acc)
}

fn hex_error_message(e: HexError) -> (r: &'static str)
    ensures
        r@ == hex_error_text(e),
{
    match e {
        HexError::Empty => "cannot parse integer from empty string",
        HexError::InvalidDigit => "invalid digit found in string",
        HexError::Overflow => "number too large to fit in target type",
    }
}

/// Parses `v[from..to]` as a hex offset, with or without `0x`.
fn parse_hex_in(v: &[char], from: usize, to: usize) -> (r: Result<u32, String>)
    requires
        from <= to <= v@.len(),
    ensures
        match spec_parse_hex(v@.subrange(from as int, to as int)) {
            Ok(x) => r == Ok::<u32, String>(x),
            Err(e) => r is Err && r->Err_0@ == e,
        },
{
    let ghost s = v@.subrange(from as int, to as int);
    let start = if to - from >= 2 && v[from] == '0' && (v[from + 1] == 'x' || v[from + 1] == 'X') {
        from + 2
    } else {
        from
    };
    assert(v@.subrange(start as int, to as int) =~= strip_hex_prefix(s));
    match from_hex_in(v, start, to) {
        Ok(x) => Ok(x),
        Err(e) => {
            let mut msg = owned_str("bad hex '");
            push_str(&mut msg, from_chars(v, start, to).as_str());
            push_str(&mut msg, "': ");
            push_str(&mut msg, hex_error_message(e));
            Err(msg)
        },
    }
}

/// Reads a hex offset, with or without a `0x`/`0X` prefix.
pub fn parse_hex(s: &str) -> (r: Result<u32, String>)
    ensures
        match spec_parse_hex(s@) {
            Ok(x) => r == Ok::<u32, String>(x),
            Err(e) => r is Err && r->Err_0@ == e,
        },
{
    let v = to_chars(s);
    assert(v@.subrange(0, v@.len() as int) =~= s@);
    parse_hex_in(v.as_slice(), 0, v.len())
}

fn set_offset_exec(o: &mut GraphicsOffsets, section: &str, key: &str, val: u32)
    ensures
        *final(o) == set_offset(*old(o), section@, key@, val),
{
    if str_eq(section, "d3d8") && str_eq(key, "present") {
        o.d3d8.present = val;
    } else if str_eq(section, "d3d9") && str_eq(key, "present") {
        o.d3d9.present = val;
    } else if str_eq(section, "d3d9") && str_eq(key, "present_ex") {
        o.d3d9.present_ex = val;
    } else if str_eq(section, "d3d9") && str_eq(key, "present_swap") {
        o.d3d9.present_swap = val;
    } else if str_eq(section, "d3d9") && str_eq(key, "d3d9_clsoff") {
        o.d3d9.d3d9_clsoff = val;
    } else if str_eq(section, "d3d9") && str_eq(key, "is_d3d9ex_clsoff") {
        o.d3d9.is_d3d9ex_clsoff = val;
    } else if str_eq(section, "dxgi") && str_eq(key, "present") {
        o.dxgi.present = val;
    } else if str_eq(section, "dxgi") && str_eq(key, "present1") {
        o.dxgi.present1 = val;
    } else if str_eq(section, "dxgi") && str_eq(key, "resize") {
        o.dxgi.resize = val;
    } else if str_eq(section, "dxgi") && str_eq(key, "release") {
        o.dxgi2.release = val;
    }
}

/// The end of the line starting at `b`, and where the next line starts.
pub(crate) fn line_end(v: &[char], b: usize) -> (r: (usize, usize))
    requires
        b < v@.len(),
    ensures
        b <= r.0 <= r.1 <= v@.len(),
        r.1 > b,
        ({
            let s = v@.subrange(b as int, v@.len() as int);
            lines(s) == seq![v@.subrange(b as int, r.0 as int)] + lines(
                v@.subrange(r.1 as int, v@.len() as int),
            )
        }),
{
    let ghost s = v@.subrange(b as int, v@.len() as int);
    let mut i: usize = b;
    while i < v.len() && v[i] != '\n'
        invariant
            b <= i <= v@.len(),
            s == v@.subrange(b as int, v@.len() as int),
            forall|j: int| b <= j < i ==> v@[j] != '\n',
        decreases v@.len() - i,
    {
        i = i + 1;
    }
    proof {
        assert forall|j: int| 0 <= j < i - b implies s[j] != '\n' by {
            assert(s[j] == v@[j + b]);
        }
        crate::text::lemma_find_char(s, '\n', i - b);
    }
    if i == v.len() {
        proof {
            assert(v@.subrange(v@.len() as int, v@.len() as int) =~= Seq::<char>::empty());
            assert(lines(Seq::<char>::empty()) =~= Seq::<Seq<char>>::empty());
            assert(v@.subrange(b as int, i as int) =~= s);
            assert(seq![s] + Seq::<Seq<char>>::empty() =~= seq![s]);
        }
        (i, i)
    } else {
        let e = if i > b && v[i - 1] == '\r' {
            i - 1
        } else {
            i
        };
        proof {
            let l = s.subrange(0, i - b);
            assert(l =~= v@.subrange(b as int, i as int));
            assert(s.subrange(i - b + 1, s.len() as int) =~= v@.subrange(i + 1, v@.len() as int));
            if i > b && v@[i - 1] == '\r' {
                assert(l.last() == v@[i - 1]);
                assert(l.drop_last() =~= v@.subrange(b as int, e as int));
            } else {
                if l.len() > 0 {
                    assert(l.last() == v@[i - 1]);
                }
            }
        }
        (e, i + 1)
    }
}

/// Parses the offsets probe's output.
pub fn parse_offsets(text: &str) -> (r: Result<GraphicsOffsets, String>)
    ensures
        match spec_parse_offsets(text@) {
            Ok(o) => r == Ok::<GraphicsOffsets, String>(o),
            Err(e) => r is Err && r->Err_0@ == e,
        },
{
    let v = to_chars(text);
    let mut o = GraphicsOffsets::default();
    let mut section = String::new();
    let mut b: usize = 0;
    assert(v@.subrange(0, v@.len() as int) =~= text@);
    while b < v.len()
        invariant
            b <= v@.len(),
            v@ == text@,
            parse_lines(lines(text@), Seq::empty(), zero_offsets()) == parse_lines(
                lines(v@.subrange(b as int, v@.len() as int)),
                section@,
                o,
            ),
        decreases v@.len() - b,
    {
        let (e, next) = line_end(v.as_slice(), b);
        let ghost ls = lines(v@.subrange(b as int, v@.len() as int));
        let ghost rest = lines(v@.subrange(next as int, v@.len() as int));
        assert(ls.drop_first() =~= rest);
        let (tb, te) = trim_bounds_in(v.as_slice(), b, e);
        let ghost t = v@.subrange(tb as int, te as int);
        if te - tb >= 2 && v[tb] == '[' && v[te - 1] == ']' {
            proof {
                assert(t[0] == v@[tb as int]);
                assert(t.last() == v@[te - 1]);
                assert(t.subrange(1, t.len() - 1) =~= v@.subrange(tb + 1, te - 1));
            }
            section = from_chars(v.as_slice(), tb + 1, te - 1);
        } else {
            proof {
                if t.len() >= 2 {
                    assert(t[0] == v@[tb as int]);
                    assert(t.last() == v@[te - 1]);
                }
            }
            let eq_pos = find_char_range(v.as_slice(), tb, te, '=');
            match eq_pos {
                None => {},
                Some(q) => {
                    proof {
                        assert(t.subrange(0, q - tb) =~= v@.subrange(tb as int, q as int));
                        assert(t.subrange(q - tb + 1, t.len() as int) =~= v@.subrange(
                            q + 1,
                            te as int,
                        ));
                    }
                    let (vb, ve) = trim_bounds_in(v.as_slice(), q + 1, te);
                    let val = match parse_hex_in(v.as_slice(), vb, ve) {
                        Ok(x) => x,
                        Err(msg) => {
                            return Err(msg);
                        },
                    };
                    let (kb, ke) = trim_bounds_in(v.as_slice(), tb, q);
                    let key = from_chars(v.as_slice(), kb, ke);
                    set_offset_exec(&mut o, section.as_str(), key.as_str(), val);
                },
            }
        }
        b = next;
    }
    assert(v@.subrange(v@.len() as int, v@.len() as int) =~= Seq::<char>::empty());
    if o.dxgi.present == 0 {
        return Err(owned_str("offsets probe returned no dxgi.present"));
    }
    Ok(o)
}

/// The first `c` in `v[from..to]`, as an index into `v`.
pub(crate) fn find_char_range(v: &[char], from: usize, to: usize, c: char) -> (r: Option<usize>)
    requires
        from <= to <= v@.len(),
    ensures
        match r {
            Some(i) => from <= i < to && find_char(v@.subrange(from as int, to as int), c) == Some(
                (i - from) as nat,
            ),
            None => find_char(v@.subrange(from as int, to as int), c) is None,
        },
{
    let ghost w = v@.subrange(from as int, to as int);
    let mut i: usize = from;
    while i < to
        invariant
            from <= i <= to <= v@.len(),
            w == v@.subrange(from as int, to as int),
            forall|j: int| 0 <= j < i - from ==> w[j] != c,
        decreases to - i,
    {
        if v[i] == c {
            proof {
                crate::text::lemma_find_char(w, c, i - from);
            }
            return Some(i);
        }
        i = i + 1;
    }
    proof {
        crate::text::lemma_find_char(w, c, i - from);
    }
    None
}

} // verus!
