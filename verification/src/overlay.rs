//! The burned-in race overlay: timer and split texts, the recent-splits
//! rows, and the ffmpeg drawtext filter chain that shows them.
use crate::text::{
    dec, dec_padded, dec_u64, join, owned_str, push_char, push_str, spaces, to_chars,
    views,
};
use vstd::prelude::*;

verus! {

/// Text file holding the running timer.
pub const TIMER_FILE: &'static str = "overlay_timer.txt";

/// Split rows shown under the timer.
pub const MAX_SPLITS: usize = 3;

/// Width in characters of the split name column.
pub const NAME_MAX_CHARS: usize = 20;

/// Smallest font size in pixels.
pub const MIN_FONT_PX: u32 = 12;

/// Overlay font file.
pub const FONT_FILE: &'static str = "FiraMonoNerdFont-Regular.otf";

/// Card behind each text: colour and opacity as ffmpeg reads them.
pub const CARD_COLOR: &'static str = "black";
pub const CARD_ALPHA: &'static str = "0.45";

/// Timer text colour and opacity.
pub const TIMER_COLOR: &'static str = "white";
pub const TIMER_ALPHA: &'static str = "1";

/// Split text colour and opacity.
pub const SPLIT_COLOR: &'static str = "white";
pub const SPLIT_ALPHA: &'static str = "0.9";

/// The text file of split row `r`.
pub fn row_file(r: usize) -> (s: String)
    ensures
        s@ == "overlay_row"@ + dec(r as nat) + ".txt"@,
{
    let mut s = owned_str("overlay_row");
    push_str(&mut s, dec_u64(r as u64).as_str());
    push_str(&mut s, ".txt");
    s
}

/// A path as ffmpeg's filter syntax needs it: forward slashes, colons
/// escaped; paths with an apostrophe cannot be quoted and are refused.
pub open spec fn spec_escape_path(p: Seq<char>) -> Option<Seq<char>> {
    let s = crate::replay::forward_slashes(p);
    if s.contains('\'') {
        None
    } else {
        Some(escape_colons(s))
    }
}

/// Every `:` preceded by a backslash.
pub open spec fn escape_colons(s: Seq<char>) -> Seq<char>
    decreases s.len(),
{
    if s.len() == 0 {
        Seq::empty()
    } else if s.last() == ':' {
        escape_colons(s.drop_last()) + seq!['\\', ':']
    } else {
        escape_colons(s.drop_last()).push(s.last())
    }
}

/// Escapes a path for a drawtext option.
pub fn escape_path(p: &str) -> (r: Option<String>)
    ensures
        match spec_escape_path(p@) {
            Some(e) => r is Some && r->0@ == e,
            None => r is None,
        },
{
    let v = to_chars(p);
    let ghost s = crate::replay::forward_slashes(v@);
    let mut i: usize = 0;
    while i < v.len()
        invariant
            i <= v@.len(),
            v@ == p@,
            s == crate::replay::forward_slashes(v@),
            forall|j: int| 0 <= j < i ==> s[j] != '\'',
        decreases v@.len() - i,
    {
        if v[i] == '\'' {
            assert(s[i as int] == '\'');
            assert(s.contains('\''));
            return None;
        }
        i = i + 1;
    }
    assert(!s.contains('\''));
    let mut r = String::new();
    let mut k: usize = 0;
    while k < v.len()
        invariant
            k <= v@.len(),
            v@ == p@,
            s == crate::replay::forward_slashes(v@),
            r@ == escape_colons(s.subrange(0, k as int)),
        decreases v@.len() - k,
    {
        let c = if v[k] == '\\' {
            '/'
        } else {
            v[k]
        };
        assert(s.subrange(0, k + 1).drop_last() =~= s.subrange(0, k as int));
        if c == ':' {
            push_char(&mut r, '\\');
            push_char(&mut r, ':');
            assert(r@ =~= escape_colons(s.subrange(0, k as int)) + seq!['\\', ':']);
        } else {
            push_char(&mut r, c);
        }
        k = k + 1;
    }
    assert(s.subrange(0, v@.len() as int) =~= s);
    Some(r)
}

/// The running timer: `[-]HH:MM:SS.t` (hours grow past two digits).
pub open spec fn spec_fmt_timer(elapsed_ms: int) -> Seq<char> {
    let ms: nat = if elapsed_ms < 0 {
        (-elapsed_ms) as nat
    } else {
        elapsed_ms as nat
    };
    let secs = ms / 1000;
    (if elapsed_ms < 0 {
        "-"@
    } else {
        Seq::empty()
    }) + dec_padded(secs / 3600, 2) + ":"@ + dec_padded((secs % 3600) / 60, 2) + ":"@ + dec_padded(
        secs % 60,
        2,
    ) + "."@ + dec((ms % 1000) / 100)
}

/// `n` with at least two digits.
fn two_digits(n: u64) -> (r: String)
    ensures
        r@ == dec_padded(n as nat, 2),
{
    let d = dec_u64(n);
    proof {
        crate::text::lemma_dec_nonempty(n as nat);
    }
    if n < 10 {
        assert(dec(n as nat).len() == 1);
        let mut r = owned_str("0");
        push_str(&mut r, d.as_str());
        proof {
            reveal_strlit("0");
            assert(crate::text::zeros(1) =~= "0"@);
        }
        r
    } else {
        proof {
            assert(dec(n as nat) == dec((n / 10) as nat).push(crate::text::digit_char((n % 10) as nat)));
            crate::text::lemma_dec_nonempty((n / 10) as nat);
        }
        d
    }
}

/// Formats the race timer from the elapsed milliseconds.
pub fn fmt_timer(elapsed_ms: i64) -> (r: String)
    ensures
        r@ == spec_fmt_timer(elapsed_ms as int),
{
    let wide: i128 = elapsed_ms as i128;
    let ms: u64 = if wide < 0 {
        (-wide) as u64
    } else {
        wide as u64
    };
    let tenths = (ms % 1000) / 100;
    let secs = ms / 1000;
    let mut r = if elapsed_ms < 0 {
        owned_str("-")
    } else {
        String::new()
    };
    push_str(&mut r, two_digits(secs / 3600).as_str());
    push_str(&mut r, ":");
    push_str(&mut r, two_digits((secs % 3600) / 60).as_str());
    push_str(&mut r, ":");
    push_str(&mut r, two_digits(secs % 60).as_str());
    push_str(&mut r, ".");
    push_str(&mut r, dec_u64(tenths).as_str());
    r
}

/// A split time: `H:MM:SS.t` from one hour on, else `M:SS.t`.
pub open spec fn spec_fmt_split_time(ms: nat) -> Seq<char> {
    let secs = ms / 1000;
    let h = secs / 3600;
    let m = (secs % 3600) / 60;
    let s = secs % 60;
    let t = (ms % 1000) / 100;
    if h > 0 {
        dec(h) + ":"@ + dec_padded(m, 2) + ":"@ + dec_padded(s, 2) + "."@ + dec(t)
    } else {
        dec(m) + ":"@ + dec_padded(s, 2) + "."@ + dec(t)
    }
}

/// Formats a split's end time.
pub fn fmt_split_time(ms: u64) -> (r: String)
    ensures
        r@ == spec_fmt_split_time(ms as nat),
{
    let tenths = (ms % 1000) / 100;
    let secs = ms / 1000;
    let h = secs / 3600;
    let m = (secs % 3600) / 60;
    let s = secs % 60;
    let mut r = if h > 0 {
        let mut r = dec_u64(h);
        push_str(&mut r, ":");
        push_str(&mut r, two_digits(m).as_str());
        r
    } else {
        dec_u64(m)
    };
    push_str(&mut r, ":");
    push_str(&mut r, two_digits(s).as_str());
    push_str(&mut r, ".");
    push_str(&mut r, dec_u64(tenths).as_str());
    r
}

/// Characters kept in split names.
pub open spec fn name_char_ok(c: char) -> bool {
    ('0' <= c && c <= '9') || ('a' <= c && c <= 'z') || ('A' <= c && c <= 'Z') || c == ' ' || c
        == '_' || c == '.' || c == '(' || c == ')' || c == '-'
}

/// The allowed characters of `s`, in order.
pub open spec fn name_chars(s: Seq<char>) -> Seq<char>
    decreases s.len(),
{
    if s.len() == 0 {
        Seq::empty()
    } else if name_char_ok(s.last()) {
        name_chars(s.drop_last()).push(s.last())
    } else {
        name_chars(s.drop_last())
    }
}

/// At most `max` allowed characters of a split name.
pub open spec fn spec_sanitize_name(s: Seq<char>, max: nat) -> Seq<char> {
    let k = name_chars(s);
    if k.len() <= max {
        k
    } else {
        k.subrange(0, max as int)
    }
}

proof fn lemma_name_chars_prefix(s: Seq<char>, i: int)
    requires
        0 <= i <= s.len(),
    ensures
        name_chars(s.subrange(0, i)).len() <= name_chars(s).len(),
        name_chars(s).subrange(0, name_chars(s.subrange(0, i)).len() as int) == name_chars(
            s.subrange(0, i),
        ),
    decreases s.len() - i,
{
    if i < s.len() {
        assert(s.drop_last().subrange(0, i) =~= s.subrange(0, i));
        lemma_name_chars_prefix(s.drop_last(), i);
        let a = name_chars(s.drop_last());
        let b = name_chars(s.subrange(0, i));
        if name_char_ok(s.last()) {
            assert(name_chars(s).subrange(0, b.len() as int) =~= a.subrange(0, b.len() as int));
        }
    } else {
        assert(s.subrange(0, i) =~= s);
    }
}

/// Keeps the first `max` allowed characters of a split name.
pub fn sanitize_name(name: &str, max: usize) -> (r: String)
    ensures
        r@ == spec_sanitize_name(name@, max as nat),
{
    let v = to_chars(name);
    let mut r = String::new();
    let mut n: usize = 0;
    let mut i: usize = 0;
    while i < v.len() && n < max
        invariant
            i <= v@.len(),
            n <= max,
            r@ == name_chars(v@.subrange(0, i as int)),
            n == r@.len(),
        decreases v@.len() - i,
    {
        let c = v[i];
        assert(v@.subrange(0, i + 1).drop_last() =~= v@.subrange(0, i as int));
        if ('0' <= c && c <= '9') || ('a' <= c && c <= 'z') || ('A' <= c && c <= 'Z') || c == ' '
            || c == '_' || c == '.' || c == '(' || c == ')' || c == '-' {
            push_char(&mut r, c);
            n = n + 1;
        }
        i = i + 1;
    }
    proof {
        lemma_name_chars_prefix(v@, i as int);
        assert(v@.subrange(0, v@.len() as int) =~= v@);
        if n < max {
            assert(i == v@.len());
        }
    }
    r
}

/// `s` left-aligned in `width` characters.
pub open spec fn pad_right(s: Seq<char>, width: nat) -> Seq<char> {
    if s.len() >= width {
        s
    } else {
        s + spaces((width - s.len()) as nat)
    }
}

/// `s` right-aligned in `width` characters.
pub open spec fn pad_left(s: Seq<char>, width: nat) -> Seq<char> {
    if s.len() >= width {
        s
    } else {
        spaces((width - s.len()) as nat) + s
    }
}

fn push_spaces(r: &mut String, k: usize)
    ensures
        final(r)@ == old(r)@ + spaces(k as nat),
{
    let mut i: usize = 0;
    while i < k
        invariant
            i <= k,
            r@ == old(r)@ + spaces(i as nat),
        decreases k - i,
    {
        push_char(r, ' ');
        i = i + 1;
        assert(r@ =~= old(r)@ + spaces(i as nat));
    }
}

/// One overlay row: the sanitised name left-aligned in the name column,
/// a space, then the split time right-aligned in ten characters.
pub open spec fn spec_split_row(name: Seq<char>, end_ms: nat) -> Seq<char> {
    pad_right(spec_sanitize_name(name, NAME_MAX_CHARS as nat), NAME_MAX_CHARS as nat) + " "@
        + pad_left(spec_fmt_split_time(end_ms), 10)
}

/// Formats an overlay row for a finished split.
pub fn split_row(name: &str, end_ms: u64) -> (r: String)
    ensures
        r@ == spec_split_row(name@, end_ms as nat),
{
    let n = sanitize_name(name, NAME_MAX_CHARS);
    let t = fmt_split_time(end_ms);
    let nl = n.as_str().unicode_len();
    let tl = t.as_str().unicode_len();
    let mut r = owned_str(n.as_str());
    if nl < NAME_MAX_CHARS {
        push_spaces(&mut r, NAME_MAX_CHARS - nl);
    }
    push_str(&mut r, " ");
    if tl < 10 {
        push_spaces(&mut r, 10 - tl);
    }
    push_str(&mut r, t.as_str());
    r
}

/// The recent-splits rows after a new split: newest first, at most
/// `MAX_SPLITS`.
pub open spec fn spec_push_recent(rows: Seq<Seq<char>>, row: Seq<char>) -> Seq<Seq<char>> {
    let all = seq![row] + rows;
    if all.len() <= MAX_SPLITS {
        all
    } else {
        all.subrange(0, MAX_SPLITS as int)
    }
}

/// The newest row is shown first, at most `MAX_SPLITS` rows are kept,
/// and the older rows keep their order.
pub proof fn law_recent_rows(rows: Seq<Seq<char>>, row: Seq<char>)
    ensures
        spec_push_recent(rows, row).len() <= MAX_SPLITS,
        spec_push_recent(rows, row)[0] == row,
        forall|i: int|
            1 <= i < spec_push_recent(rows, row).len() ==> #[trigger] spec_push_recent(rows, row)[i]
                == rows[i - 1],
{
}

/// Records a new split row at the top of the recent rows.
pub fn push_recent(rows: &mut Vec<String>, row: String)
    ensures
        views(final(rows)@) == spec_push_recent(views(old(rows)@), row@),
{
    let ghost rv = row@;
    rows.insert(0, row);
    rows.truncate(MAX_SPLITS);
    assert(views(rows@) =~= spec_push_recent(views(old(rows)@), rv));
}

/// Pixel sizes of the overlay for one output height.
#[derive(Debug, Clone, Copy, PartialEq, Eq, Structural)]
pub struct OverlayMetrics {
    pub timer_fs: u32,
    pub split_fs: u32,
    pub margin: u32,
    pub pad: u32,
    pub row_gap: u32,
}

/// One drawtext "chip": text from a file on a translucent card,
/// right-aligned with the margin, at vertical position `y`.
pub open spec fn chip(
    font: Seq<char>,
    file: Seq<char>,
    fs: nat,
    color: Seq<char>,
    alpha: Seq<char>,
    m: OverlayMetrics,
    y: nat,
) -> Seq<char> {
    "drawtext=fontfile='"@ + font + "':textfile='"@ + file + "':reload=1:fontcolor="@ + color + "@"@
        + alpha + ":fontsize="@ + dec(fs) + ":box=1:boxcolor="@ + CARD_COLOR@ + "@"@ + CARD_ALPHA@
        + ":boxborderw="@ + dec(m.pad as nat) + ":x=w-tw-"@ + dec(m.margin as nat) + ":y="@ + dec(y)
}

/// Height of a text line of font size `fs` with its card padding.
pub open spec fn line_height(fs: nat, m: OverlayMetrics) -> nat {
    fs * 6 / 5 + 2 * (m.pad as nat)
}

/// Top of split row `r`, below the timer.
pub open spec fn row_top(r: nat, m: OverlayMetrics) -> nat {
    line_height(m.timer_fs as nat, m) + (m.row_gap as nat) + r * (line_height(
        m.split_fs as nat,
        m,
    ) + (m.row_gap as nat))
}

/// The chips of split rows `0..k`.
pub open spec fn row_chips(font: Seq<char>, rows: Seq<Seq<char>>, m: OverlayMetrics, k: nat) -> Seq<
    Seq<char>,
>
    decreases k,
{
    if k == 0 {
        Seq::empty()
    } else {
        row_chips(font, rows, m, (k - 1) as nat).push(
            chip(
                font,
                rows[k - 1],
                m.split_fs as nat,
                SPLIT_COLOR@,
                SPLIT_ALPHA@,
                m,
                (m.margin + row_top((k - 1) as nat, m)) as nat,
            ),
        )
    }
}

/// The overlay filter: the timer chip, then one chip per split row,
/// comma-separated. `None` when a path cannot be escaped.
pub open spec fn spec_overlay_filter(
    font: Seq<char>,
    timer_file: Seq<char>,
    row_files: Seq<Seq<char>>,
    m: OverlayMetrics,
) -> Option<Seq<char>> {
    match (spec_escape_path(font), spec_escape_path(timer_file)) {
        (Some(f), Some(t)) => if forall|r: int|
            0 <= r < row_files.len() ==> #[trigger] spec_escape_path(row_files[r]) is Some {
            let rows = row_files.map_values(|p: Seq<char>| spec_escape_path(p)->0);
            Some(
                join(
                    seq![chip(f, t, m.timer_fs as nat, TIMER_COLOR@, TIMER_ALPHA@, m, m.margin as nat)]
                        + row_chips(f, rows, m, rows.len()),
                    ","@,
                ),
            )
        } else {
            None
        },
        _ => None,
    }
}

fn chip_text(font: &str, file: &str, fs: u64, color: &str, alpha: &str, m: OverlayMetrics, y: u64) -> (r:
    String)
    ensures
        r@ == chip(font@, file@, fs as nat, color@, alpha@, m, y as nat),
{
    let mut r = owned_str("drawtext=fontfile='");
    push_str(&mut r, font);
    push_str(&mut r, "':textfile='");
    push_str(&mut r, file);
    push_str(&mut r, "':reload=1:fontcolor=");
    push_str(&mut r, color);
    push_str(&mut r, "@");
    push_str(&mut r, alpha);
    push_str(&mut r, ":fontsize=");
    push_str(&mut r, dec_u64(fs).as_str());
    push_str(&mut r, ":box=1:boxcolor=");
    push_str(&mut r, CARD_COLOR);
    push_str(&mut r, "@");
    push_str(&mut r, CARD_ALPHA);
    push_str(&mut r, ":boxborderw=");
    push_str(&mut r, dec_u64(m.pad as u64).as_str());
    push_str(&mut r, ":x=w-tw-");
    push_str(&mut r, dec_u64(m.margin as u64).as_str());
    push_str(&mut r, ":y=");
    push_str(&mut r, dec_u64(y).as_str());
    r
}

/// Builds the overlay's drawtext filter chain.
pub fn overlay_filter(font: &str, timer_file: &str, row_files: &[String], m: OverlayMetrics) -> (r:
    Option<String>)
    requires
        row_files@.len() <= MAX_SPLITS,
    ensures
        match spec_overlay_filter(font@, timer_file@, views(row_files@), m) {
            Some(f) => r is Some && r->0@ == f,
            None => r is None,
        },
{
    let ghost rv = views(row_files@);
    let f = match escape_path(font) {
        Some(f) => f,
        None => return None,
    };
    let t = match escape_path(timer_file) {
        Some(t) => t,
        None => return None,
    };
    let mut escaped: Vec<String> = Vec::new();
    let mut i: usize = 0;
    while i < row_files.len()
        invariant
            i <= row_files@.len(),
            rv == views(row_files@),
            forall|r: int| 0 <= r < i ==> #[trigger] spec_escape_path(rv[r]) is Some,
            views(escaped@) == rv.subrange(0, i as int).map_values(
                |p: Seq<char>| spec_escape_path(p)->0,
            ),
        decreases row_files@.len() - i,
    {
        let ghost ri = rv[i as int];
        assert(ri == row_files@[i as int]@);
        match escape_path(row_files[i].as_str()) {
            Some(e) => {
                let ghost before = views(escaped@);
                let ghost ev = e@;
                escaped.push(e);
                assert(views(escaped@) =~= before.push(ev));
                assert(rv.subrange(0, i + 1).map_values(|p: Seq<char>| spec_escape_path(p)->0)
                    =~= rv.subrange(0, i as int).map_values(
                    |p: Seq<char>| spec_escape_path(p)->0,
                ).push(spec_escape_path(ri)->0));
            },
            None => {
                assert(!(spec_escape_path(rv[i as int]) is Some));
                return None;
            },
        }
        i = i + 1;
    }
    let ghost rows = rv.map_values(|p: Seq<char>| spec_escape_path(p)->0);
    assert(rv.subrange(0, rv.len() as int) =~= rv);
    assert(views(escaped@) == rows);
    let timer_fs = m.timer_fs as u64;
    let split_fs = m.split_fs as u64;
    let pad = m.pad as u64;
    let gap = m.row_gap as u64;
    let timer_line = timer_fs * 6 / 5 + 2 * pad;
    let split_line = split_fs * 6 / 5 + 2 * pad;
    let mut parts: Vec<String> = Vec::new();
    parts.push(
        chip_text(
            f.as_str(),
            t.as_str(),
            timer_fs,
            TIMER_COLOR,
            TIMER_ALPHA,
            m,
            m.margin as u64,
        ),
    );
    let mut k: usize = 0;
    while k < escaped.len()
        invariant
            k <= escaped@.len(),
            escaped@.len() == rows.len(),
            rows.len() <= MAX_SPLITS,
            views(escaped@) == rows,
            spec_escape_path(font@) == Some(f@),
            spec_escape_path(timer_file@) == Some(t@),
            gap == m.row_gap,
            pad == m.pad,
            split_fs == m.split_fs,
            timer_line == line_height(m.timer_fs as nat, m),
            split_line == line_height(m.split_fs as nat, m),
            timer_line <= 4 * u32::MAX,
            split_line <= 4 * u32::MAX,
            views(parts@) == seq![
                chip(f@, t@, m.timer_fs as nat, TIMER_COLOR@, TIMER_ALPHA@, m, m.margin as nat),
            ] + row_chips(f@, rows, m, k as nat),
        decreases escaped@.len() - k,
    {
        assert((k as nat) * (split_line + gap) <= 3 * (5 * u32::MAX as nat)) by (nonlinear_arith)
            requires
                k <= 3,
                split_line + gap <= 5 * u32::MAX,
        ;
        let top = timer_line + gap + (k as u64) * (split_line + gap);
        assert(top == row_top(k as nat, m));
        assert(escaped@[k as int]@ == rows[k as int]);
        let ghost before = views(parts@);
        let c = chip_text(
            f.as_str(),
            escaped[k].as_str(),
            split_fs,
            SPLIT_COLOR,
            SPLIT_ALPHA,
            m,
            m.margin as u64 + top,
        );
        let ghost cv = c@;
        assert(cv == chip(
            f@,
            rows[k as int],
            m.split_fs as nat,
            SPLIT_COLOR@,
            SPLIT_ALPHA@,
            m,
            (m.margin + row_top(k as nat, m)) as nat,
        ));
        parts.push(c);
        assert(views(parts@) =~= before.push(cv));
        k = k + 1;
        assert(row_chips(f@, rows, m, k as nat) == row_chips(f@, rows, m, (k - 1) as nat).push(cv));
        assert(views(parts@) =~= seq![
            chip(f@, t@, m.timer_fs as nat, TIMER_COLOR@, TIMER_ALPHA@, m, m.margin as nat),
        ] + row_chips(f@, rows, m, k as nat));
    }
    Some(crate::naming::join_strings(parts.as_slice(), ","))
}

/// The chips of split rows `0..k`, each at its row's top.
proof fn lemma_row_chips_closed(font: Seq<char>, rows: Seq<Seq<char>>, m: OverlayMetrics, k: nat)
    requires
        k <= rows.len(),
    ensures
        row_chips(font, rows, m, k) =~= Seq::new(
            k,
            |r: int|
                chip(
                    font,
                    rows[r],
                    m.split_fs as nat,
                    SPLIT_COLOR@,
                    SPLIT_ALPHA@,
                    m,
                    (m.margin + row_top(r as nat, m)) as nat,
                ),
        ),
    decreases k,
{
    if k > 0 {
        lemma_row_chips_closed(font, rows, m, (k - 1) as nat);
    }
}

/// The overlay is the timer chip at the top margin followed by one chip
/// per split row, in order; the rows stack downwards without overlapping:
/// row 0 sits one gap below the timer's card (its font size times 6/5
/// plus twice the padding), and each further row one split card plus one
/// gap below the row before it.
pub proof fn law_split_rows_stack(
    font: Seq<char>,
    timer_file: Seq<char>,
    row_files: Seq<Seq<char>>,
    m: OverlayMetrics,
)
    ensures
        spec_overlay_filter(font, timer_file, row_files, m) matches Some(out) ==> out == join(
            seq![
                chip(
                    spec_escape_path(font)->0,
                    spec_escape_path(timer_file)->0,
                    m.timer_fs as nat,
                    TIMER_COLOR@,
                    TIMER_ALPHA@,
                    m,
                    m.margin as nat,
                ),
            ] + Seq::new(
                row_files.len(),
                |r: int|
                    chip(
                        spec_escape_path(font)->0,
                        spec_escape_path(row_files[r])->0,
                        m.split_fs as nat,
                        SPLIT_COLOR@,
                        SPLIT_ALPHA@,
                        m,
                        (m.margin + (m.timer_fs * 6 / 5 + 2 * m.pad) + m.row_gap + r * (m.split_fs * 6
                            / 5 + 2 * m.pad + m.row_gap)) as nat,
                    ),
            ),
            ","@,
        ),
{
    if let Some(out) = spec_overlay_filter(font, timer_file, row_files, m) {
        let f = spec_escape_path(font)->0;
        let rows = row_files.map_values(|p: Seq<char>| spec_escape_path(p)->0);
        lemma_row_chips_closed(f, rows, m, rows.len());
        let want = Seq::new(
            row_files.len(),
            |r: int|
                chip(
                    f,
                    spec_escape_path(row_files[r])->0,
                    m.split_fs as nat,
                    SPLIT_COLOR@,
                    SPLIT_ALPHA@,
                    m,
                    (m.margin + (m.timer_fs * 6 / 5 + 2 * m.pad) + m.row_gap + r * (m.split_fs * 6 / 5
                        + 2 * m.pad + m.row_gap)) as nat,
                ),
        );
        assert(row_chips(f, rows, m, rows.len()) =~= want);
    }
}

} // verus!
