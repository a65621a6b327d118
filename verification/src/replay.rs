//! Replay recording bookkeeping: the file names inside a replay's parts
//! directory, recognising and ordering segment files, the trim plan and
//! run anchors, the ffmpeg concat list, and which old replays to sweep.
use crate::text::{
    dec, dec_padded, dec_u64, digits_value, is_digit, owned_str, push_char, push_str,
    to_chars,
};
use crate::types::{parse_encoder, Encoder};
use vstd::prelude::*;

verus! {

/// Suffix of a replay's parts directory.
pub const PARTS_SUFFIX: &'static str = ".parts";

/// Flag file: the run switched encoders, so parts cannot be joined by
/// stream copy.
pub const MIXED_ENCODERS: &'static str = "mixed_encoders.flag";

/// The trimmed first segment.
pub const HEAD_TRIM_FILE: &'static str = "head_trimmed.mp4";

/// The ffmpeg concat list.
pub const CONCAT_LIST_FILE: &'static str = "concat.txt";

/// The trim plan.
pub const TRIM_PLAN_FILE: &'static str = "trimplan.json";

/// Largest gap between runs that is filled with black video, in ms.
pub const MAX_FILLER_MS: i64 = 120_000;

/// Where the uploaded video starts: the first kept segment and how much
/// of it to cut.
#[derive(Debug, Clone, Copy, PartialEq, Eq, Structural)]
pub struct TrimPlan {
    pub run: u32,
    pub first_index: u32,
    pub head_trim_ms: i64,
}

/// Wall-clock placement of one run: the server time of its segment
/// timeline's zero, and the end of its last segment.
#[derive(Debug, Clone, Copy, PartialEq, Eq, Structural)]
pub struct RunAnchor {
    pub anchor_ms: i64,
    pub last_end_ms: i64,
}

/// Name of the parts directory of a replay whose file stem is `stem`.
pub fn parts_dir_name(stem: &str) -> (r: String)
    ensures
        r@ == stem@ + PARTS_SUFFIX@,
{
    let mut r = owned_str(stem);
    push_str(&mut r, PARTS_SUFFIX);
    r
}

/// `str::ends_with`.
pub open spec fn ends_with(s: Seq<char>, suffix: Seq<char>) -> bool {
    suffix.len() <= s.len() && s.subrange(s.len() - suffix.len(), s.len() as int) == suffix
}

/// `str::starts_with`.
pub open spec fn starts_with(s: Seq<char>, prefix: Seq<char>) -> bool {
    prefix.len() <= s.len() && s.subrange(0, prefix.len() as int) == prefix
}

fn chars_end_with(v: &[char], suffix: &[char]) -> (r: bool)
    ensures
        r == ends_with(v@, suffix@),
{
    if suffix.len() > v.len() {
        return false;
    }
    let off = v.len() - suffix.len();
    let mut i: usize = 0;
    while i < suffix.len()
        invariant
            off + suffix@.len() == v@.len(),
            i <= suffix@.len(),
            forall|j: int| 0 <= j < i ==> v@[off + j] == suffix@[j],
        decreases suffix@.len() - i,
    {
        assert(v@.len() == v.len());
        if v[off + i] != suffix[i] {
            assert(v@.subrange(off as int, v@.len() as int)[i as int] != suffix@[i as int]);
            return false;
        }
        i = i + 1;
    }
    assert(v@.subrange(off as int, v@.len() as int) =~= suffix@);
    true
}

/// Whether a directory name is a replay parts directory.
pub fn is_parts_dir_name(name: &str) -> (r: bool)
    ensures
        r == ends_with(name@, PARTS_SUFFIX@),
{
    let v = to_chars(name);
    let s = to_chars(PARTS_SUFFIX);
    chars_end_with(v.as_slice(), s.as_slice())
}

/// Segment file `index` of run `run`: `r{run}_s{index:05}.mp4`.
pub fn segment_name(run: u32, index: u32) -> (r: String)
    ensures
        r@ == "r"@ + dec(run as nat) + "_s"@ + dec_padded(index as nat, 5) + ".mp4"@,
{
    let mut r = owned_str("r");
    push_str(&mut r, dec_u64(run as u64).as_str());
    push_str(&mut r, "_s");
    let digits = dec_u64(index as u64);
    let n = digits.as_str().unicode_len();
    let mut k: usize = n;
    let ghost before = r@;
    while k < 5
        invariant
            n == dec(index as nat).len(),
            n <= k <= 5 || (n > 5 && k == n),
            r@ == before + crate::text::zeros((k - n) as nat),
        decreases 5 - k,
    {
        push_char(&mut r, '0');
        k = k + 1;
        assert(r@ =~= before + crate::text::zeros((k - n) as nat));
    }
    let ghost pad = r@;
    push_str(&mut r, digits.as_str());
    push_str(&mut r, ".mp4");
    proof {
        if n >= 5 {
            assert(crate::text::zeros((k - n) as nat) =~= Seq::<char>::empty());
            assert(pad =~= before);
        } else {
            assert(k == 5);
        }
        assert(r@ =~= "r"@ + dec(run as nat) + "_s"@ + dec_padded(index as nat, 5) + ".mp4"@);
    }
    r
}

/// ffmpeg's output pattern for the segments of run `run`.
pub fn segment_pattern(run: u32) -> (r: String)
    ensures
        r@ == "r"@ + dec(run as nat) + "_s%05d.mp4"@,
{
    let mut r = owned_str("r");
    push_str(&mut r, dec_u64(run as u64).as_str());
    push_str(&mut r, "_s%05d.mp4");
    r
}

fn run_file(run: u32, suffix: &str) -> (r: String)
    ensures
        r@ == "r"@ + dec(run as nat) + suffix@,
{
    let mut r = owned_str("r");
    push_str(&mut r, dec_u64(run as u64).as_str());
    push_str(&mut r, suffix);
    r
}

/// The segment list (CSV) of run `run`.
pub fn list_name(run: u32) -> (r: String)
    ensures
        r@ == "r"@ + dec(run as nat) + ".csv"@,
{
    run_file(run, ".csv")
}

/// The file recording which encoder run `run` used.
pub fn encoder_file_name(run: u32) -> (r: String)
    ensures
        r@ == "r"@ + dec(run as nat) + ".encoder.txt"@,
{
    run_file(run, ".encoder.txt")
}

/// The anchor file of run `run`.
pub fn anchor_file_name(run: u32) -> (r: String)
    ensures
        r@ == "r"@ + dec(run as nat) + ".anchor.json"@,
{
    run_file(run, ".anchor.json")
}

/// The black filler inserted after run `after_run`.
pub fn filler_file_name(after_run: u32) -> (r: String)
    ensures
        r@ == "filler_r"@ + dec(after_run as nat) + ".mp4"@,
{
    let mut r = owned_str("filler_r");
    push_str(&mut r, dec_u64(after_run as u64).as_str());
    push_str(&mut r, ".mp4");
    r
}

/// `str::parse::<u32>()`.
pub open spec fn parse_u32(s: Seq<char>) -> Option<u32> {
    let d = if s.len() > 0 && s[0] == '+' {
        s.drop_first()
    } else {
        s
    };
    if d.len() > 0 && crate::text::all_digits(d) && digits_value(d) <= u32::MAX {
        Some(digits_value(d) as u32)
    } else {
        None
    }
}

/// First position of `pat` in `s`.
pub open spec fn find_sub(s: Seq<char>, pat: Seq<char>) -> Option<nat>
    decreases s.len(),
{
    if pat.len() <= s.len() && s.subrange(0, pat.len() as int) == pat {
        Some(0)
    } else if s.len() == 0 {
        None
    } else {
        match find_sub(s.drop_first(), pat) {
            Some(i) => Some(i + 1),
            None => None,
        }
    }
}

/// `(run, index)` of a segment file name `r{run}_s{index}.mp4`.
pub open spec fn spec_parse_segment_name(name: Seq<char>) -> Option<(u32, u32)> {
    if name.len() >= 1 && name[0] == 'r' && ends_with(name.drop_first(), ".mp4"@) {
        let rest = name.subrange(1, name.len() - 4);
        match find_sub(rest, "_s"@) {
            Some(i) => match (
                parse_u32(rest.subrange(0, i as int)),
                parse_u32(rest.subrange((i + 2) as int, rest.len() as int)),
            ) {
                (Some(run), Some(index)) => Some((run, index)),
                _ => None,
            },
            None => None,
        }
    } else {
        None
    }
}

proof fn lemma_find_sub(s: Seq<char>, pat: Seq<char>, i: int)
    requires
        0 <= i <= s.len(),
        forall|j: int|
            0 <= j < i ==> !(pat.len() <= s.len() - j && #[trigger] s.subrange(j, j + pat.len())
                == pat),
    ensures
        (i + pat.len() <= s.len() && s.subrange(i, i + pat.len()) == pat) ==> find_sub(s, pat)
            == Some(i as nat),
        (i == s.len() && !(pat.len() == 0)) ==> find_sub(s, pat) is None,
    decreases i,
{
    if i > 0 {
        let t = s.drop_first();
        assert forall|j: int|
            0 <= j < i - 1 implies !(pat.len() <= t.len() - j && #[trigger] t.subrange(
                j,
                j + pat.len(),
            ) == pat) by {
            if pat.len() <= t.len() - j {
                assert(t.subrange(j, j + pat.len()) =~= s.subrange(j + 1, j + 1 + pat.len()));
            }
        }
        assert(!(pat.len() <= s.len() && s.subrange(0, 0 + pat.len() as int) == pat));
        if i + pat.len() <= s.len() {
            assert(t.subrange(i - 1, i - 1 + pat.len()) =~= s.subrange(i, i + pat.len()));
        }
        lemma_find_sub(t, pat, i - 1);
    } else {
        if s.len() == 0 && pat.len() > 0 {
        }
    }
}

/// A digits-only, nonempty text reads back as its value.
proof fn lemma_parse_u32_digits(d: Seq<char>, n: nat)
    requires
        d.len() >= 1,
        crate::text::all_digits(d),
        digits_value(d) == n,
        n <= u32::MAX,
    ensures
        parse_u32(d) == Some(n as u32),
{
    assert(is_digit(d[0]));
}

/// A segment file name reads back as the run and segment number it was
/// made from.
pub proof fn law_segment_name_round_trip(run: u32, index: u32)
    ensures
        spec_parse_segment_name(
            "r"@ + dec(run as nat) + "_s"@ + dec_padded(index as nat, 5) + ".mp4"@,
        ) == Some((run, index)),
{
    reveal_strlit("r");
    reveal_strlit("_s");
    reveal_strlit(".mp4");
    let a = dec(run as nat);
    let p = dec_padded(index as nat, 5);
    crate::text::lemma_dec_reads_back(run as nat);
    crate::text::lemma_dec_reads_back(index as nat);
    if dec(index as nat).len() < 5 {
        crate::text::lemma_leading_zeros((5 - dec(index as nat).len()) as nat, dec(index as nat));
    }
    assert(crate::text::all_digits(p) && digits_value(p) == index as nat && p.len() >= 1);
    let name = "r"@ + a + "_s"@ + p + ".mp4"@;
    assert(name[0] == 'r');
    assert(name.drop_first().subrange(name.drop_first().len() - 4, name.drop_first().len() as int)
        =~= ".mp4"@);
    let rest = name.subrange(1, name.len() - 4);
    assert(rest =~= a + "_s"@ + p);
    let i = a.len() as int;
    assert forall|j: int|
        0 <= j < i implies !("_s"@.len() <= rest.len() - j && #[trigger] rest.subrange(
            j,
            j + "_s"@.len(),
        ) == "_s"@) by {
        assert(rest[j] == a[j]);
        assert(is_digit(a[j]));
        if "_s"@.len() <= rest.len() - j && rest.subrange(j, j + "_s"@.len()) == "_s"@ {
            assert(rest.subrange(j, j + 2)[0] == rest[j]);
        }
    }
    assert(rest.subrange(i, i + 2) =~= "_s"@);
    lemma_find_sub(rest, "_s"@, i);
    assert(rest.subrange(0, i) =~= a);
    assert(rest.subrange(i + 2, rest.len() as int) =~= p);
    lemma_parse_u32_digits(a, run as nat);
    lemma_parse_u32_digits(p, index as nat);
}

/// `u32` parse of `v[from..to]`.
pub(crate) fn parse_u32_in(v: &[char], from: usize, to: usize) -> (r: Option<u32>)
    requires
        from <= to <= v@.len(),
    ensures
        r == parse_u32(v@.subrange(from as int, to as int)),
{
    match crate::text::parse_u64_in(v, from, to) {
        Some(x) => {
            if x <= u32::MAX as u64 {
                Some(x as u32)
            } else {
                None
            }
        },
        None => None,
    }
}

/// Reads `(run, index)` from a segment file name.
pub fn parse_segment_name(name: &str) -> (r: Option<(u32, u32)>)
    ensures
        r == spec_parse_segment_name(name@),
{
    let v = to_chars(name);
    let n = v.len();
    if n < 1 || v[0] != 'r' {
        return None;
    }
    proof {
        reveal_strlit(".mp4");
    }
    let ghost tail = v@.drop_first();
    assert(tail =~= v@.subrange(1, n as int));
    if n - 1 < 4 || !(v[n - 4] == '.' && v[n - 3] == 'm' && v[n - 2] == 'p' && v[n - 1] == '4') {
        proof {
            if n - 1 >= 4 {
                let t = tail.subrange(tail.len() - 4, tail.len() as int);
                assert(t[0] == v@[n - 4] && t[1] == v@[n - 3] && t[2] == v@[n - 2] && t[3] == v@[n
                    - 1]);
            }
        }
        return None;
    }
    proof {
        assert(tail.subrange(tail.len() - 4, tail.len() as int) =~= ".mp4"@);
    }
    let end = n - 4;
    let ghost rest = v@.subrange(1, end as int);
    assert(rest == name@.subrange(1, name@.len() - 4));
    // first "_s" in v[1..end]
    let mut i: usize = 1;
    while i + 2 <= end && !(v[i] == '_' && v[i + 1] == 's')
        invariant
            1 <= i <= end || (end < 1 && i == 1),
            end == n - 4,
            n == v@.len(),
            rest == v@.subrange(1, end as int),
            forall|j: int|
                0 <= j < i - 1 ==> !(2 <= rest.len() - j && #[trigger] rest.subrange(j, j + 2)
                    == "_s"@),
        decreases end - i,
    {
        proof {
            reveal_strlit("_s");
            let j = i - 1;
            if 2 <= rest.len() - j && rest.subrange(j, j + 2) == "_s"@ {
                assert(rest.subrange(j, j + 2)[0] == v@[i as int]);
                assert(rest.subrange(j, j + 2)[1] == v@[i + 1]);
            }
        }
        i = i + 1;
    }
    proof {
        reveal_strlit("_s");
    }
    if i + 2 > end {
        proof {
            assert forall|j: int|
                0 <= j < rest.len() implies !(2 <= rest.len() - j && #[trigger] rest.subrange(
                j,
                j + 2,
            ) == "_s"@) by {}
            lemma_find_sub(rest, "_s"@, rest.len() as int);
        }
        return None;
    }
    proof {
        assert(rest.subrange(i - 1, i + 1) =~= "_s"@);
        lemma_find_sub(rest, "_s"@, i - 1);
        assert(rest.subrange(0, i - 1) =~= v@.subrange(1, i as int));
        assert(rest.subrange(i - 1 + 2, rest.len() as int) =~= v@.subrange(i + 2, end as int));
    }
    let run = parse_u32_in(v.as_slice(), 1, i);
    let index = parse_u32_in(v.as_slice(), i + 2, end);
    match (run, index) {
        (Some(r), Some(x)) => Some((r, x)),
        _ => None,
    }
}

/// Total order on segment keys: by run, then index.
pub open spec fn key_lt(a: (u32, u32), b: (u32, u32)) -> bool {
    a.0 < b.0 || (a.0 == b.0 && a.1 < b.1)
}

/// Order of `(key, position)` pairs: by key, ties by position.
pub open spec fn entry_lt(a: ((u32, u32), usize), b: ((u32, u32), usize)) -> bool {
    key_lt(a.0, b.0) || (a.0 == b.0 && a.1 < b.1)
}

fn entry_less(a: ((u32, u32), usize), b: ((u32, u32), usize)) -> (r: bool)
    ensures
        r == entry_lt(a, b),
{
    a.0.0 < b.0.0 || (a.0.0 == b.0.0 && a.0.1 < b.0.1) || (a.0.0 == b.0.0 && a.0.1 == b.0.1 && a.1
        < b.1)
}

/// The segment files among `names`, each with its position in `names`,
/// in directory order.
pub open spec fn parsed_segments(names: Seq<Seq<char>>) -> Seq<((u32, u32), usize)>
    decreases names.len(),
{
    if names.len() == 0 {
        Seq::empty()
    } else {
        let prev = parsed_segments(names.drop_last());
        match spec_parse_segment_name(names.last()) {
            Some(k) => prev.push((k, (names.len() - 1) as usize)),
            None => prev,
        }
    }
}

/// Strictly ascending under `entry_lt`.
pub open spec fn sorted_entries(s: Seq<((u32, u32), usize)>) -> bool {
    forall|i: int, j: int| 0 <= i < j < s.len() ==> entry_lt(#[trigger] s[i], #[trigger] s[j])
}

/// The segment files of a parts directory, ordered by `(run, index)`;
/// files with equal keys keep their directory order (a stable sort).
/// Each entry carries the file's position in `names`.
pub fn order_segments(names: &[String]) -> (r: Vec<((u32, u32), usize)>)
    ensures
        sorted_entries(r@),
        r@.to_set() == parsed_segments(names@.map_values(|s: String| s@)).to_set(),
        r@.len() == parsed_segments(names@.map_values(|s: String| s@)).len(),
{
    let ghost nv = names@.map_values(|s: String| s@);
    let mut r: Vec<((u32, u32), usize)> = Vec::new();
    let mut i: usize = 0;
    while i < names.len()
        invariant
            i <= names@.len(),
            nv == names@.map_values(|s: String| s@),
            sorted_entries(r@),
            r@.to_set() == parsed_segments(nv.subrange(0, i as int)).to_set(),
            r@.len() == parsed_segments(nv.subrange(0, i as int)).len(),
            forall|k: int| 0 <= k < r@.len() ==> (#[trigger] r@[k]).1 < i,
        decreases names@.len() - i,
    {
        let ghost pre = nv.subrange(0, i as int);
        let ghost pre1 = nv.subrange(0, i + 1);
        assert(pre1.drop_last() =~= pre);
        assert(pre1.last() == names@[i as int]@);
        match parse_segment_name(names[i].as_str()) {
            None => {
                assert(parsed_segments(pre1) == parsed_segments(pre));
            },
            Some(key) => {
                let e = (key, i);
                // insertion point: first entry greater than e
                let mut p: usize = r.len();
                while p > 0 && entry_less(e, r[p - 1])
                    invariant
                        p <= r@.len(),
                        forall|k: int| p <= k < r@.len() ==> entry_lt(e, #[trigger] r@[k]),
                    decreases p,
                {
                    p = p - 1;
                }
                proof {
                    // everything before p is below e
                    assert forall|k: int| 0 <= k < p implies entry_lt(#[trigger] r@[k], e) by {
                        if k < p - 1 {
                            assert(entry_lt(r@[k], r@[p - 1]));
                        }
                        assert(r@[k].1 < i);
                    }
                }
                let ghost old_r = r@;
                r.insert(p, e);
                proof {
                    assert(r@ =~= old_r.subrange(0, p as int).push(e) + old_r.subrange(
                        p as int,
                        old_r.len() as int,
                    ));
                    assert forall|a: int, b: int| 0 <= a < b < r@.len() implies entry_lt(
                        #[trigger] r@[a],
                        #[trigger] r@[b],
                    ) by {
                        if a < p && b < p {
                            assert(r@[a] == old_r[a] && r@[b] == old_r[b]);
                        } else if a < p && b == p {
                            assert(r@[a] == old_r[a]);
                        } else if a < p && b > p {
                            assert(r@[a] == old_r[a] && r@[b] == old_r[b - 1]);
                            if a < b - 1 {
                            }
                        } else if a == p {
                            assert(r@[b] == old_r[b - 1]);
                        } else {
                            assert(r@[a] == old_r[a - 1] && r@[b] == old_r[b - 1]);
                        }
                    }
                    assert(r@.to_set() =~= old_r.to_set().insert(e)) by {
                        assert forall|x| r@.to_set().contains(x) <==> old_r.to_set().insert(e).contains(x) by {
                            if r@.contains(x) {
                                let k = choose|k: int| 0 <= k < r@.len() && r@[k] == x;
                                if k < p {
                                    assert(old_r[k] == x);
                                } else if k > p {
                                    assert(old_r[k - 1] == x);
                                }
                            }
                            if old_r.contains(x) {
                                let k = choose|k: int| 0 <= k < old_r.len() && old_r[k] == x;
                                if k < p {
                                    assert(r@[k] == x);
                                } else {
                                    assert(r@[k + 1] == x);
                                }
                            }
                            if x == e {
                                assert(r@[p as int] == e);
                            }
                        }
                    }
                    assert(parsed_segments(pre1) == parsed_segments(pre).push(e));
                    lemma_push_to_set(parsed_segments(pre), e);
                    assert forall|k: int| 0 <= k < r@.len() implies (#[trigger] r@[k]).1 < i + 1 by {
                        if k < p {
                            assert(r@[k] == old_r[k]);
                        } else if k > p {
                            assert(r@[k] == old_r[k - 1]);
                        }
                    }
                }
            },
        }
        i = i + 1;
    }
    assert(nv.subrange(0, names@.len() as int) =~= nv);
    r
}


proof fn lemma_push_to_set<A>(s: Seq<A>, e: A)
    ensures
        s.push(e).to_set() == s.to_set().insert(e),
{
    assert forall|x: A| s.push(e).contains(x) <==> s.contains(x) || x == e by {
        if s.push(e).contains(x) {
            let k = choose|k: int| 0 <= k < s.push(e).len() && s.push(e)[k] == x;
            if k < s.len() {
                assert(s[k] == x);
            }
        }
        if s.contains(x) {
            let k = choose|k: int| 0 <= k < s.len() && s[k] == x;
            assert(s.push(e)[k] == x);
        }
        if x == e {
            assert(s.push(e)[s.len() as int] == e);
        }
    }
    assert forall|x: A| s.push(e).to_set().contains(x) <==> s.to_set().insert(e).contains(x) by {
        assert(s.push(e).contains(x) <==> s.contains(x) || x == e);
    }
    assert(s.push(e).to_set() =~= s.to_set().insert(e));
}

/// Applies a trim plan to the ordered segment keys.
pub fn apply_trim_plan(plan: Option<TrimPlan>, keys: &[(u32, u32)]) -> (r: (usize, i64))
    ensures
        r.0 < keys@.len() || r.0 == 0,
        match plan {
            None => r == (0usize, 0i64),
            Some(p) => if exists|i: int| 0 <= i < keys@.len() && keys@[i] == (p.run, p.first_index) {
                keys@[r.0 as int] == (p.run, p.first_index) && (forall|j: int|
                    0 <= j < r.0 ==> keys@[j] != (p.run, p.first_index)) && r.1 == p.head_trim_ms
            } else {
                r == (0usize, 0i64)
            },
        },
{
    let p = match plan {
        None => return (0, 0),
        Some(p) => p,
    };
    let head = (p.run, p.first_index);
    let mut i: usize = 0;
    while i < keys.len()
        invariant
            i <= keys@.len(),
            plan == Some(p),
            head == (p.run, p.first_index),
            forall|j: int| 0 <= j < i ==> keys@[j] != head,
        decreases keys@.len() - i,
    {
        if keys[i].0 == head.0 && keys[i].1 == head.1 {
            return (i, p.head_trim_ms);
        }
        i = i + 1;
    }
    (0, 0)
}

/// The encoder run `run` recorded with, from its encoder file's text;
/// x264 when the file is missing or names no encoder.
pub fn recorded_encoder(text: Option<&str>) -> (r: Encoder)
    ensures
        r == match text {
            Some(t) => match parse_encoder(t@) {
                Some(e) => e,
                None => Encoder::X264,
            },
            None => Encoder::X264,
        },
{
    match text {
        Some(t) => match Encoder::parse(t) {
            Some(e) => e,
            None => Encoder::X264,
        },
        None => Encoder::X264,
    }
}

/// What to do about the time between two runs.
#[derive(Debug, Clone, Copy, PartialEq, Eq, Structural)]
pub enum FillerGap {
    /// The runs touch or overlap: nothing to fill.
    Nothing,
    /// Fill this many milliseconds with black.
    Fill(i64),
    /// The gap (ms) is larger than `MAX_FILLER_MS`: leave it.
    TooLarge(i128),
}

/// The gap between the end of run `prev` and the start of run `next`.
pub open spec fn run_gap(prev: RunAnchor, next: RunAnchor) -> int {
    next.anchor_ms - (prev.anchor_ms + prev.last_end_ms)
}

/// Decides whether to fill the gap between two runs.
pub fn filler_gap(prev: RunAnchor, next: RunAnchor) -> (r: FillerGap)
    ensures
        r == (if run_gap(prev, next) > MAX_FILLER_MS {
            FillerGap::TooLarge(run_gap(prev, next) as i128)
        } else if run_gap(prev, next) > 0 {
            FillerGap::Fill(run_gap(prev, next) as i64)
        } else {
            FillerGap::Nothing
        }),
{
    let gap: i128 = next.anchor_ms as i128 - (prev.anchor_ms as i128 + prev.last_end_ms as i128);
    if gap > MAX_FILLER_MS as i128 {
        FillerGap::TooLarge(gap)
    } else if gap > 0 {
        FillerGap::Fill(gap as i64)
    } else {
        FillerGap::Nothing
    }
}

/// Positions in the ordered segment keys where a new run begins (every
/// position whose run differs from the one before): a filler for the
/// earlier run may go there.
pub open spec fn run_boundaries_upto(keys: Seq<(u32, u32)>, n: nat) -> Seq<usize>
    decreases n,
{
    if n <= 1 {
        Seq::empty()
    } else if keys[n - 2].0 != keys[n - 1].0 {
        run_boundaries_upto(keys, (n - 1) as nat).push((n - 1) as usize)
    } else {
        run_boundaries_upto(keys, (n - 1) as nat)
    }
}

/// The positions where a new run begins, in order.
pub fn run_boundaries(keys: &[(u32, u32)]) -> (r: Vec<usize>)
    ensures
        r@ == run_boundaries_upto(keys@, keys@.len()),
{
    let mut r: Vec<usize> = Vec::new();
    let mut i: usize = 1;
    while i < keys.len()
        invariant
            1 <= i,
            i <= keys@.len() || keys@.len() == 0,
            r@ == run_boundaries_upto(keys@, if keys@.len() == 0 { 0 } else { i as nat }),
        decreases keys@.len() - i,
    {
        if keys[i - 1].0 != keys[i].0 {
            r.push(i);
        }
        i = i + 1;
    }
    r
}

/// A path with backslashes turned into forward slashes.
pub open spec fn forward_slashes(p: Seq<char>) -> Seq<char> {
    p.map_values(|c: char| if c == '\\' { '/' } else { c })
}

/// One concat-list line.
pub open spec fn concat_line(p: Seq<char>) -> Seq<char> {
    "file '"@ + forward_slashes(p) + "'\n"@
}

/// The ffmpeg concat list of the given parts, in order.
pub open spec fn spec_concat_list(parts: Seq<Seq<char>>) -> Seq<char>
    decreases parts.len(),
{
    if parts.len() == 0 {
        Seq::empty()
    } else {
        spec_concat_list(parts.drop_last()) + concat_line(parts.last())
    }
}

/// The ffmpeg concat list of the given parts.
pub fn concat_list(parts: &[String]) -> (r: String)
    ensures
        r@ == spec_concat_list(parts@.map_values(|s: String| s@)),
{
    let ghost pv = parts@.map_values(|s: String| s@);
    let mut r = String::new();
    let mut i: usize = 0;
    while i < parts.len()
        invariant
            i <= parts@.len(),
            pv == parts@.map_values(|s: String| s@),
            r@ == spec_concat_list(pv.subrange(0, i as int)),
        decreases parts@.len() - i,
    {
        let ghost before = r@;
        push_str(&mut r, "file '");
        let v = to_chars(parts[i].as_str());
        let mut k: usize = 0;
        let ghost mid = r@;
        while k < v.len()
            invariant
                k <= v@.len(),
                r@ == mid + forward_slashes(v@.subrange(0, k as int)),
            decreases v@.len() - k,
        {
            let c = v[k];
            push_char(&mut r, if c == '\\' { '/' } else { c });
            k = k + 1;
            assert(r@ =~= mid + forward_slashes(v@.subrange(0, k as int)));
        }
        assert(v@.subrange(0, v@.len() as int) =~= v@);
        push_str(&mut r, "'\n");
        proof {
            let pre1 = pv.subrange(0, i + 1);
            assert(pre1.drop_last() =~= pv.subrange(0, i as int));
            assert(pre1.last() == parts@[i as int]@);
        }
        i = i + 1;
    }
    assert(pv.subrange(0, parts@.len() as int) =~= pv);
    r
}

/// Whether an entry of the replay directory has expired and must be
/// deleted: parts directories and `.mp4` files last modified before the
/// cutoff (entries without a modification time are kept).
pub fn should_sweep(is_parts_dir: bool, extension: Option<&str>, modified_ms: Option<u64>, cutoff_ms: u64) -> (r:
    bool)
    ensures
        r == ((is_parts_dir || (extension matches Some(e) && e@ == "mp4"@)) && (modified_ms matches Some(
            m,
        ) && m < cutoff_ms)),
{
    let is_mp4 = match extension {
        Some(e) => crate::text::str_eq(e, "mp4"),
        None => false,
    };
    if !is_parts_dir && !is_mp4 {
        return false;
    }
    match modified_ms {
        Some(m) => m < cutoff_ms,
        None => false,
    }
}

} // verus!
