//! Presentation helpers for timetable and timeline data: colors and date formats.

use vstd::prelude::*;
use crate::text::{replace_all, replace_all_spec, substring};
use crate::types::{CampusTimelineEvent, ExportEventView, ExportTimelineEvent};

verus! {

/// The 64-bit FNV-1a hash of a string, as `Hash for str` feeds it to the hasher.
pub uninterp spec fn fnv_hash_of(s: Seq<char>) -> u64;

/// Relies on fnv's `FnvHasher` (from its default state) fed by `Hash for str`, read with
/// `Hasher::finish`: the result depends on the characters of `s` alone.
#[verifier::external_body]
pub(crate) fn fnv_hash(s: &str) -> (r: u64)
    ensures
        r == fnv_hash_of(s@),
{
    let mut hasher = fnv::FnvHasher::default();
    std::hash::Hash::hash(s, &mut hasher);
    std::hash::Hasher::finish(&hasher)
}

pub open spec fn upper_hex_digits() -> Seq<char> {
    seq!['0', '1', '2', '3', '4', '5', '6', '7', '8', '9', 'A', 'B', 'C', 'D', 'E', 'F']
}

/// Two upper-case hex digits for `v` in `0..256`.
pub open spec fn hex_byte_spec(v: int) -> Seq<char> {
    seq![upper_hex_digits()[v / 16], upper_hex_digits()[v % 16]]
}

/// `#RRGGBB` from the lowest three bytes of `h`, red lowest.
pub open spec fn rgb_hex_spec(h: u64) -> Seq<char> {
    seq!['#'] + hex_byte_spec(h as int % 256) + hex_byte_spec((h as int / 256) % 256)
        + hex_byte_spec((h as int / 65536) % 256)
}

pub(crate) fn hex_byte(v: u64) -> (r: String)
    requires
        v < 256,
    ensures
        r@ == hex_byte_spec(v as int),
{
    let digits = "0123456789ABCDEF";
    proof {
        reveal_strlit("0123456789ABCDEF");
    }
    assert(digits@ =~= upper_hex_digits());
    let hi = substring(digits, (v / 16) as usize, (v / 16) as usize + 1);
    let lo = substring(digits, (v % 16) as usize, (v % 16) as usize + 1);
    let mut r = hi;
    r.append(lo.as_str());
    assert(r@ =~= hex_byte_spec(v as int));
    r
}

/// A color for any text: `#RRGGBB` from its FNV hash.
pub fn string_to_rgb(input: &str) -> (r: String)
    ensures
        r@ == rgb_hex_spec(fnv_hash_of(input@)),
{
    let h = fnv_hash(input);
    let mut r = "#".to_owned();
    proof {
        reveal_strlit("#");
    }
    let red = hex_byte(h % 256);
    let green = hex_byte((h / 256) % 256);
    let blue = hex_byte((h / 65536) % 256);
    r.append(red.as_str());
    r.append(green.as_str());
    r.append(blue.as_str());
    assert(r@ =~= rgb_hex_spec(h));
    r
}

/// The color a timetable entry is shown in: the portal's dark red kept, any other color
/// replaced by one derived from the entry's title.
pub open spec fn timetable_color_spec(color: Seq<char>, title: Seq<char>) -> Seq<char> {
    if color == "darkred"@ {
        "#D41610"@
    } else {
        rgb_hex_spec(fnv_hash_of("0"@ + title + "0"@))
    }
}

pub fn timetable_color(color: &str, title: &str) -> (r: String)
    ensures
        r@ == timetable_color_spec(color@, title@),
{
    let dark = "darkred".to_owned();
    if color.to_owned() == dark {
        "#D41610".to_owned()
    } else {
        let mut key = "0".to_owned();
        key.append(title);
        key.append("0");
        string_to_rgb(key.as_str())
    }
}

/// The value of a hex digit.
pub open spec fn hex_value(c: char) -> Option<int> {
    if '0' <= c && c <= '9' {
        Some(c as int - '0' as int)
    } else if 'a' <= c && c <= 'f' {
        Some(c as int - 'a' as int + 10)
    } else if 'A' <= c && c <= 'F' {
        Some(c as int - 'A' as int + 10)
    } else {
        None
    }
}

fn hex_value_of(c: char) -> (r: Option<u8>)
    ensures
        r matches Some(v) ==> hex_value(c) == Some(v as int),
        r is None ==> hex_value(c) is None,
{
    if '0' <= c && c <= '9' {
        Some((c as u32 - '0' as u32) as u8)
    } else if 'a' <= c && c <= 'f' {
        Some((c as u32 - 'a' as u32 + 10) as u8)
    } else if 'A' <= c && c <= 'F' {
        Some((c as u32 - 'A' as u32 + 10) as u8)
    } else {
        None
    }
}

/// What `u8::from_str_radix(_, 16)` gives for two characters: an optional `+` and one digit,
/// or two digits.
pub open spec fn hex_pair_spec(a: char, b: char) -> Option<u8> {
    if a == '+' {
        match hex_value(b) {
            Some(v) => Some(v as u8),
            None => None,
        }
    } else {
        match (hex_value(a), hex_value(b)) {
            (Some(x), Some(y)) => Some((x * 16 + y) as u8),
            _ => None,
        }
    }
}

fn hex_pair(a: char, b: char) -> (r: Option<u8>)
    ensures
        r == hex_pair_spec(a, b),
{
    if a == '+' {
        hex_value_of(b)
    } else {
        match (hex_value_of(a), hex_value_of(b)) {
            (Some(x), Some(y)) => Some(x * 16 + y),
            _ => None,
        }
    }
}

/// `s` without its leading `#` characters.
pub open spec fn without_hashes(s: Seq<char>) -> Seq<char>
    decreases s.len(),
{
    if s.len() > 0 && s[0] == '#' {
        without_hashes(s.drop_first())
    } else {
        s
    }
}

/// The red, green and blue bytes of a `#rrggbb` color.
pub open spec fn hex_to_rgb_spec(hex: Seq<char>) -> Option<(u8, u8, u8)> {
    let t = without_hashes(hex);
    if t.len() < 6 {
        None
    } else {
        match (hex_pair_spec(t[0], t[1]), hex_pair_spec(t[2], t[3]), hex_pair_spec(t[4], t[5])) {
            (Some(r), Some(g), Some(b)) => Some((r, g, b)),
            _ => None,
        }
    }
}

pub fn hex_to_rgb(hex: &str) -> (r: Option<(u8, u8, u8)>)
    ensures
        r == hex_to_rgb_spec(hex@),
{
    let n = hex.unicode_len();
    let mut i: usize = 0;
    assert(hex@.subrange(0, n as int) =~= hex@);
    while i < n && hex.get_char(i) == '#'
        invariant
            n == hex@.len(),
            i <= n,
            without_hashes(hex@) == without_hashes(hex@.subrange(i as int, n as int)),
        decreases n - i,
    {
        assert(hex@.subrange(i as int, n as int).drop_first() =~= hex@.subrange(i + 1, n as int));
        i = i + 1;
    }
    let ghost t = hex@.subrange(i as int, n as int);
    assert(without_hashes(t) == t);
    if n - i < 6 {
        return None;
    }
    let red = hex_pair(hex.get_char(i), hex.get_char(i + 1));
    let green = hex_pair(hex.get_char(i + 2), hex.get_char(i + 3));
    let blue = hex_pair(hex.get_char(i + 4), hex.get_char(i + 5));
    assert(t[0] == hex@[i as int] && t[1] == hex@[i + 1] && t[2] == hex@[i + 2]);
    assert(t[3] == hex@[i + 3] && t[4] == hex@[i + 4] && t[5] == hex@[i + 5]);
    match (red, green, blue) {
        (Some(r), Some(g), Some(b)) => Some((r, g, b)),
        _ => None,
    }
}

/// The date and time that `s` spells in the strftime `format`, in RFC 3339.
pub uninterp spec fn rfc3339_of(s: Seq<char>, format: Seq<char>) -> Option<Seq<char>>;

/// Relies on chrono's `DateTime::parse_from_str` and `DateTime::to_rfc3339`: the date and time
/// that `s` spells in `format`, written in RFC 3339; `None` where it spells none.
#[verifier::external_body]
fn reformat_rfc3339(s: &str, format: &str) -> (r: Option<String>)
    ensures
        r.deep_view() == rfc3339_of(s@, format@),
{
    chrono::DateTime::parse_from_str(s, format).ok().map(|d| d.to_rfc3339())
}

/// The portal's date format: `Tue, 01 Oct 2024 08:00:00 +0200`.
pub open spec fn campus_date_format() -> Seq<char> {
    "%a, %d %b %Y %H:%M:%S %z"@
}

/// A portal date in RFC 3339; `None` where the text is no portal date.
pub fn _campusdate_to_iso8601(input: &str) -> (r: Option<String>)
    ensures
        r.deep_view() == rfc3339_of(input@, campus_date_format()),
{
    reformat_rfc3339(input, "%a, %d %b %Y %H:%M:%S %z")
}

/// An event description as plain text: line breaks become spaces, bold marks go.
pub open spec fn plain_description(d: Seq<char>) -> Seq<char> {
    replace_all_spec(
        replace_all_spec(replace_all_spec(d, "<br>"@, " "@), "<strong>"@, ""@),
        "</strong>"@,
        ""@,
    )
}

/// The exported form of an event; `None` where one of its dates is no portal date.
pub open spec fn export_event_spec(e: CampusTimelineEvent) -> Option<ExportEventView> {
    match (rfc3339_of(e.start@, campus_date_format()), rfc3339_of(e.end@, campus_date_format())) {
        (Some(start), Some(end)) => Some(
            ExportEventView {
                name: e.title@,
                description: plain_description(e.description@),
                color: e.color@,
                start,
                end,
            },
        ),
        _ => None,
    }
}

/// The exported events of color `color`, in order; `None` where one of them has a date that is
/// no portal date.
pub open spec fn events_by_color_spec(color: Seq<char>, events: Seq<CampusTimelineEvent>) -> Option<
    Seq<ExportEventView>,
>
    decreases events.len(),
{
    if events.len() == 0 {
        Some(Seq::empty())
    } else {
        match events_by_color_spec(color, events.drop_last()) {
            None => None,
            Some(prev) => if events.last().color@ != color {
                Some(prev)
            } else {
                match export_event_spec(events.last()) {
                    Some(x) => Some(prev.push(x)),
                    None => None,
                }
            },
        }
    }
}

proof fn lemma_failure_persists(color: Seq<char>, events: Seq<CampusTimelineEvent>, i: int)
    requires
        0 <= i <= events.len(),
        events_by_color_spec(color, events.subrange(0, i)) is None,
    ensures
        events_by_color_spec(color, events) is None,
    decreases events.len() - i,
{
    if i < events.len() {
        assert(events.subrange(0, i + 1).drop_last() =~= events.subrange(0, i));
        lemma_failure_persists(color, events, i + 1);
    } else {
        assert(events.subrange(0, i) =~= events);
    }
}

fn export_event(e: &CampusTimelineEvent) -> (r: Option<ExportTimelineEvent>)
    ensures
        match r {
            Some(x) => export_event_spec(*e) == Some(x@),
            None => export_event_spec(*e) is None,
        },
{
    let start = _campusdate_to_iso8601(e.start.as_str())?;
    let end = _campusdate_to_iso8601(e.end.as_str())?;
    let d1 = replace_all(e.description.as_str(), "<br>", " ");
    let d2 = replace_all(d1.as_str(), "<strong>", "");
    let description = replace_all(d2.as_str(), "</strong>", "");
    Some(ExportTimelineEvent { name: e.title.clone(), description, color: e.color.clone(), start, end })
}

/// The events of color `color`, in the exported form; `None` where one of them has a date that
/// is no portal date.
pub fn _events_by_color(color: &str, events: &[CampusTimelineEvent]) -> (r: Option<Vec<ExportTimelineEvent>>)
    ensures
        match r {
            Some(v) => events_by_color_spec(color@, events@) == Some(v@.map_values(|x: ExportTimelineEvent| x@)),
            None => events_by_color_spec(color@, events@) is None,
        },
{
    let mut out: Vec<ExportTimelineEvent> = Vec::new();
    let mut i: usize = 0;
    while i < events.len()
        invariant
            i <= events@.len(),
            events_by_color_spec(color@, events@.subrange(0, i as int)) == Some(
                out@.map_values(|x: ExportTimelineEvent| x@),
            ),
        decreases events@.len() - i,
    {
        let e = &events[i];
        assert(events@.subrange(0, i as int + 1).drop_last() =~= events@.subrange(0, i as int));
        assert(events@.subrange(0, i as int + 1).last() == events@[i as int]);
        if e.color.as_str().to_owned() == color.to_owned() {
            match export_event(e) {
                Some(x) => {
                    let ghost before = out@;
                    out.push(x);
                    assert(out@.map_values(|x: ExportTimelineEvent| x@) =~= before.map_values(
                        |x: ExportTimelineEvent| x@,
                    ).push(x@));
                },
                None => {
                    proof {
                        lemma_failure_persists(color@, events@, i + 1);
                    }
                    return None;
                },
            }
        }
        i = i + 1;
    }
    assert(events@.subrange(0, events@.len() as int) =~= events@);
    Some(out)
}

} // verus!
