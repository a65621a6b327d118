//! The replay file name: sanitised game, category and player names plus
//! a local timestamp.
use crate::text::{
    join, opt_str, owned_str, push_str, to_chars, trim, trim_bounds_in, views,
};
use vstd::prelude::*;

verus! {

/// `char::is_control`: the C0 and C1 control characters.
pub open spec fn is_control(c: char) -> bool {
    (c as u32) <= 0x1F || (0x7F <= (c as u32) && (c as u32) <= 0x9F)
}

/// Characters Windows forbids in file names.
pub open spec fn is_forbidden(c: char) -> bool {
    c == '<' || c == '>' || c == ':' || c == '"' || c == '/' || c == '\\' || c == '|' || c == '?'
        || c == '*'
}

/// Apostrophes dropped, forbidden and control characters replaced by
/// `-` (before trimming).
pub open spec fn sanitize_raw(s: Seq<char>) -> Seq<char>
    decreases s.len(),
{
    if s.len() == 0 {
        Seq::empty()
    } else {
        let prev = sanitize_raw(s.drop_last());
        let c = s.last();
        if c == '\'' {
            prev
        } else if is_forbidden(c) || is_control(c) {
            prev.push('-')
        } else {
            prev.push(c)
        }
    }
}

/// A name made safe for a file name.
pub open spec fn spec_sanitize(s: Seq<char>) -> Seq<char> {
    trim(sanitize_raw(s))
}

/// Makes a name safe for use in a file name.
pub fn sanitize(s: &str) -> (r: String)
    ensures
        r@ == spec_sanitize(s@),
{
    let v = to_chars(s);
    let mut out: Vec<char> = Vec::new();
    let mut i: usize = 0;
    while i < v.len()
        invariant
            i <= v@.len(),
            out@ == sanitize_raw(v@.subrange(0, i as int)),
        decreases v@.len() - i,
    {
        let c = v[i];
        let u = c as u32;
        proof {
            assert(v@.subrange(0, i + 1).drop_last() =~= v@.subrange(0, i as int));
        }
        if c == '\'' {
        } else if c == '<' || c == '>' || c == ':' || c == '"' || c == '/' || c == '\\' || c == '|'
            || c == '?' || c == '*' || u <= 0x1F || (0x7F <= u && u <= 0x9F) {
            out.push('-');
        } else {
            out.push(c);
        }
        i = i + 1;
    }
    assert(v@.subrange(0, v@.len() as int) =~= s@);
    let (b, e) = trim_bounds_in(out.as_slice(), 0, out.len());
    assert(out@.subrange(0, out@.len() as int) =~= out@);
    crate::text::from_chars(out.as_slice(), b, e)
}

/// The category shown in titles: none, the only one, or the last two as
/// "parent (leaf)".
pub open spec fn spec_title_category(c: Seq<Seq<char>>) -> Option<Seq<char>> {
    if c.len() == 0 {
        None
    } else if c.len() == 1 {
        Some(c[0])
    } else {
        Some(c[c.len() - 2] + " ("@ + c.last() + ")"@)
    }
}

/// The category shown in titles.
pub fn title_category(category_name: &[String]) -> (r: Option<String>)
    ensures
        match spec_title_category(views(category_name@)) {
            Some(t) => r is Some && r->0@ == t,
            None => r is None,
        },
{
    let n = category_name.len();
    if n == 0 {
        None
    } else if n == 1 {
        Some(category_name[0].clone())
    } else {
        let mut r = category_name[n - 2].clone();
        push_str(&mut r, " (");
        push_str(&mut r, category_name[n - 1].as_str());
        push_str(&mut r, ")");
        Some(r)
    }
}

/// The non-empty pieces, in order.
pub open spec fn non_empty(parts: Seq<Seq<char>>) -> Seq<Seq<char>>
    decreases parts.len(),
{
    if parts.len() == 0 {
        Seq::empty()
    } else if parts.last().len() == 0 {
        non_empty(parts.drop_last())
    } else {
        non_empty(parts.drop_last()).push(parts.last())
    }
}

/// The replay file name: `speedrace_` then the sanitised game, category
/// and player (empty ones left out) and the timestamp, joined by
/// " - ", then `.mp4`.
pub open spec fn spec_replay_file_name(
    game: Seq<char>,
    category: Seq<Seq<char>>,
    username: Option<Seq<char>>,
    stamp: Seq<char>,
) -> Seq<char> {
    let named = seq![spec_sanitize(game)] + (match spec_title_category(category) {
        Some(c) => seq![spec_sanitize(c)],
        None => Seq::empty(),
    }) + (match username {
        Some(u) => seq![spec_sanitize(u)],
        None => Seq::empty(),
    });
    "speedrace_"@ + join(non_empty(named).push(stamp), " - "@) + ".mp4"@
}

/// Builds the replay file name from its parts and a timestamp.
pub fn replay_file_name(game: &str, category_name: &[String], username: Option<&str>, stamp: &str) -> (r:
    String)
    ensures
        r@ == spec_replay_file_name(
            game@,
            views(category_name@),
            opt_str(username),
            stamp@,
        ),
{
    let mut named: Vec<String> = Vec::new();
    named.push(sanitize(game));
    match title_category(category_name) {
        Some(c) => named.push(sanitize(c.as_str())),
        None => {},
    }
    match username {
        Some(u) => named.push(sanitize(u)),
        None => {},
    }
    let ghost uv = match username {
        Some(u) => Some(u@),
        None => None,
    };
    let ghost spec_named = seq![spec_sanitize(game@)] + (match spec_title_category(
        views(category_name@),
    ) {
        Some(c) => seq![spec_sanitize(c)],
        None => Seq::empty(),
    }) + (match uv {
        Some(u) => seq![spec_sanitize(u)],
        None => Seq::empty(),
    });
    assert(views(named@) =~= spec_named);
    let mut parts: Vec<String> = Vec::new();
    let mut i: usize = 0;
    while i < named.len()
        invariant
            i <= named@.len(),
            views(parts@) == non_empty(views(named@).subrange(0, i as int)),
        decreases named@.len() - i,
    {
        proof {
            assert(views(named@).subrange(0, i + 1).drop_last() =~= views(named@).subrange(
                0,
                i as int,
            ));
        }
        if named[i].as_str().unicode_len() > 0 {
            let ghost before = views(parts@);
            parts.push(named[i].clone());
            assert(views(parts@) =~= before.push(named@[i as int]@));
        }
        i = i + 1;
    }
    assert(views(named@).subrange(0, named@.len() as int) =~= views(named@));
    let ghost before_stamp = views(parts@);
    parts.push(owned_str(stamp));
    assert(views(parts@) =~= before_stamp.push(stamp@));
    let mut r = owned_str("speedrace_");
    push_str(&mut r, join_strings(&parts, " - ").as_str());
    push_str(&mut r, ".mp4");
    r
}

/// Joins strings with a separator.
pub fn join_strings(parts: &[String], sep: &str) -> (r: String)
    ensures
        r@ == join(views(parts@), sep@),
{
    let mut r = String::new();
    let mut i: usize = 0;
    while i < parts.len()
        invariant
            i <= parts@.len(),
            r@ == join(views(parts@).subrange(0, i as int), sep@),
        decreases parts@.len() - i,
    {
        let ghost pre1 = views(parts@).subrange(0, i + 1);
        assert(pre1.drop_last() =~= views(parts@).subrange(0, i as int));
        if i > 0 {
            push_str(&mut r, sep);
        }
        push_str(&mut r, parts[i].as_str());
        proof {
            if i == 0 {
                assert(join(views(parts@).subrange(0, 0), sep@) =~= Seq::<char>::empty());
                assert(r@ =~= pre1[0]);
            }
        }
        i = i + 1;
    }
    assert(views(parts@).subrange(0, parts@.len() as int) =~= views(parts@));
    r
}

/// Whether this race gets a replay recording: always for ranked races,
/// for casual ones only when the user asked for it.
pub fn should_record_replay(ranked: bool, replay_casual: bool) -> (r: bool)
    ensures
        r == (ranked || replay_casual),
{
    ranked || replay_casual
}

/// A decimal digit.
pub open spec fn is_digit_char(c: char) -> bool {
    48 <= c as nat <= 57
}

/// Two decimal digits at `i` and `i + 1`.
pub open spec fn two_digits(t: Seq<char>, i: int) -> bool {
    is_digit_char(t[i]) && is_digit_char(t[i + 1])
}

/// A year as chrono's `%Y` writes it: four to six digits, behind a sign
/// when the year is outside 0..=9999.
pub open spec fn year_text(y: Seq<char>) -> bool {
    let d = if y.len() > 0 && (y[0] == '+' || y[0] == '-') {
        y.subrange(1, y.len() as int)
    } else {
        y
    };
    &&& 4 <= d.len() <= 6
    &&& forall|i: int| 0 <= i < d.len() ==> is_digit_char(#[trigger] d[i])
}

/// The shape of a replay time stamp, `dd-mm-YYYY HHhMMmSSs`.
pub open spec fn stamp_shape(t: Seq<char>) -> bool {
    let n = t.len() as int;
    &&& n >= 20
    &&& two_digits(t, 0)
    &&& t[2] == '-'
    &&& two_digits(t, 3)
    &&& t[5] == '-'
    &&& year_text(t.subrange(6, n - 10))
    &&& t[n - 10] == ' '
    &&& two_digits(t, n - 9)
    &&& t[n - 7] == 'h'
    &&& two_digits(t, n - 6)
    &&& t[n - 4] == 'm'
    &&& two_digits(t, n - 3)
    &&& t[n - 1] == 's'
}

/// The current local time as `dd-mm-YYYY HHhMMmSSs` (chrono's
/// `Local::now().format(..)`): every item is zero-padded to two digits
/// and the year written as `%Y` writes it. Which time it is, is not
/// stated.
#[verifier::external_body]
fn local_stamp() -> (r: String)
    ensures
        stamp_shape(r@),
{
    chrono::Local::now().format("%d-%m-%Y %Hh%Mm%Ss").to_string()
}

/// The replay file name stamped with the current local time.
pub fn replay_file_name_now(game: &str, category_name: &[String], username: Option<&str>) -> (r:
    String)
    ensures
        exists|stamp: Seq<char>|
            stamp_shape(stamp) && r@ == #[trigger] spec_replay_file_name(
                game@,
                views(category_name@),
                opt_str(username),
                stamp,
            ),
{
    let stamp = local_stamp();
    replay_file_name(game, category_name, username, stamp.as_str())
}

} // verus!
