use vstd::prelude::*;
use crate::json::{Json, member, at_path, str_of, int_of, path_view};
use crate::numbers::{is_number, digits_value, parse_number};

verus! {

/// One chapter of a video: its title and where it starts, in seconds.
#[derive(Debug)]
pub struct Chapter {
    pub title: String,
    pub start_time: i32,
}

/// `s` with every run of characters that are not digits (Unicode `\D`) removed.
pub uninterp spec fn without_non_digits(s: Seq<char>) -> Seq<char>;

/// Relies on `regex::Regex::new(r"\D+")` and `Regex::replace_all` with an empty
/// replacement: the text with each run of non-digits removed.
#[verifier::external_body]
fn strip_non_digits(s: &str) -> (r: String)
    ensures
        r@ == without_non_digits(s@),
{
    match regex::Regex::new(r"\D+") {
        Ok(re) => re.replace_all(s, "").into_owned(),
        Err(_) => s.to_string(),
    }
}

/// The count that a label such as `"1,234 likes"` writes: what is left once its
/// non-digits are removed, read as a number; 0 when that is not decimal digits or
/// does not fit an `i32`.
pub open spec fn label_count(label: Seq<char>) -> i32 {
    let d = without_non_digits(label);
    if is_number(d) && digits_value(d) <= i32::MAX {
        digits_value(d) as i32
    } else {
        0
    }
}

/// The index of the first element at or after `i` that has member `key`.
pub open spec fn first_having(es: Seq<Json>, key: Seq<char>, i: int) -> Option<int>
    decreases es.len() - i,
{
    if i < 0 || i >= es.len() {
        None
    } else if member(es[i], key) is Some {
        Some(i)
    } else {
        first_having(es, key, i + 1)
    }
}

/// The icon name of an action button.
pub open spec fn button_icon(b: Json) -> Option<Seq<char>> {
    str_of(at_path(b, seq!["toggleButtonRenderer"@, "defaultIcon"@, "iconType"@]))
}

/// The index of the first button at or after `i` whose icon is `icon`.
pub open spec fn first_icon(bs: Seq<Json>, icon: Seq<char>, i: int) -> Option<int>
    decreases bs.len() - i,
{
    if i < 0 || i >= bs.len() {
        None
    } else if button_icon(bs[i]) == Some(icon) {
        Some(i)
    } else {
        first_icon(bs, icon, i + 1)
    }
}

/// The elements of an array, none for anything else.
pub open spec fn items(j: Option<Json>) -> Seq<Json> {
    match j {
        Some(Json::Array(v)) => v@,
        _ => Seq::empty(),
    }
}

/// The contents of the watch results of the initial data.
pub open spec fn watch_contents(info: Json) -> Seq<Json> {
    items(
        at_path(
            info,
            seq![
                "contents"@,
                "twoColumnWatchNextResults"@,
                "results"@,
                "results"@,
                "contents"@,
            ],
        ),
    )
}

/// The count on the first action button with icon `icon` of the primary info of
/// the initial data, 0 when there is none.
pub open spec fn button_count(info: Json, icon: Seq<char>) -> i32 {
    let cs = watch_contents(info);
    match first_having(cs, "videoPrimaryInfoRenderer"@, 0) {
        Some(v) => {
            let bs = items(
                at_path(
                    cs[v],
                    seq![
                        "videoPrimaryInfoRenderer"@,
                        "videoActions"@,
                        "menuRenderer"@,
                        "topLevelButtons"@,
                    ],
                ),
            );
            match first_icon(bs, icon, 0) {
                Some(b) => match str_of(
                    at_path(
                        bs[b],
                        seq![
                            "toggleButtonRenderer"@,
                            "defaultText"@,
                            "accessibility"@,
                            "accessibilityData"@,
                            "label"@,
                        ],
                    ),
                ) {
                    Some(label) => label_count(label),
                    None => 0,
                },
                None => 0,
            }
        },
        None => 0,
    }
}

/// The count that a label writes, its non-digits left out.
pub fn parse_label_count(label: &str) -> (r: i32)
    ensures
        r == label_count(label@),
{
    let kept = strip_non_digits(label);
    let d = crate::text::chars_of(kept.as_str());
    match parse_number(&d) {
        Some(n) => if n <= 2147483647 {
            n as i32
        } else {
            0
        },
        None => 0,
    }
}

fn array_at<'a>(j: &'a Json, path: &[&str]) -> (r: &'a [Json])
    ensures
        r@ == items(at_path(*j, path_view(path@))),
{
    match j.get_path(path) {
        Some(v) => match v.as_array() {
            Some(a) => a.as_slice(),
            None => &[],
        },
        None => &[],
    }
}

fn button_count_exec(info: &Json, icon: &str) -> (r: i32)
    ensures
        r == button_count(*info, icon@),
{
    let contents_path: [&str; 5] = ["contents", "twoColumnWatchNextResults", "results", "results", "contents"];
    assert(path_view(contents_path@) =~= seq![
        "contents"@,
        "twoColumnWatchNextResults"@,
        "results"@,
        "results"@,
        "contents"@,
    ]);
    let cs = array_at(info, &contents_path);
    let mut v: usize = 0;
    while v < cs.len() && cs[v].get("videoPrimaryInfoRenderer").is_none()
        invariant
            v <= cs@.len(),
            first_having(cs@, "videoPrimaryInfoRenderer"@, 0) == first_having(
                cs@,
                "videoPrimaryInfoRenderer"@,
                v as int,
            ),
        decreases cs@.len() - v,
    {
        v = v + 1;
    }
    if v >= cs.len() {
        return 0;
    }
    let actions_path: [&str; 4] = ["videoPrimaryInfoRenderer", "videoActions", "menuRenderer", "topLevelButtons"];
    assert(path_view(actions_path@) =~= seq![
        "videoPrimaryInfoRenderer"@,
        "videoActions"@,
        "menuRenderer"@,
        "topLevelButtons"@,
    ]);
    let bs = array_at(&cs[v], &actions_path);
    let icon_path: [&str; 3] = ["toggleButtonRenderer", "defaultIcon", "iconType"];
    assert(path_view(icon_path@) =~= seq!["toggleButtonRenderer"@, "defaultIcon"@, "iconType"@]);
    let mut b: usize = 0;
    while b < bs.len() && !crate::json::str_at_is(&bs[b], &icon_path, icon)
        invariant
            b <= bs@.len(),
            path_view(icon_path@) == seq!["toggleButtonRenderer"@, "defaultIcon"@, "iconType"@],
            first_icon(bs@, icon@, 0) == first_icon(bs@, icon@, b as int),
        decreases bs@.len() - b,
    {
        b = b + 1;
    }
    if b >= bs.len() {
        return 0;
    }
    let label_path: [&str; 5] = [
        "toggleButtonRenderer",
        "defaultText",
        "accessibility",
        "accessibilityData",
        "label",
    ];
    assert(path_view(label_path@) =~= seq![
        "toggleButtonRenderer"@,
        "defaultText"@,
        "accessibility"@,
        "accessibilityData"@,
        "label"@,
    ]);
    match bs[b].get_path(&label_path) {
        Some(l) => match l.as_str() {
            Some(s) => parse_label_count(s.as_str()),
            None => 0,
        },
        None => 0,
    }
}

/// The like count that the initial data shows, 0 when it shows none.
pub fn get_likes(info: &Json) -> (r: i32)
    ensures
        r == button_count(*info, "LIKE"@),
{
    button_count_exec(info, "LIKE")
}

/// The dislike count that the initial data shows, 0 when it shows none.
pub fn get_dislikes(info: &Json) -> (r: i32)
    ensures
        r == button_count(*info, "DISLIKE"@),
{
    button_count_exec(info, "DISLIKE")
}

/// The text of a text object: the first of its `runs`, or its `simpleText`.
pub open spec fn text_of(j: Option<Json>) -> Option<Seq<char>> {
    match j {
        Some(o) => match member(o, "runs"@) {
            Some(Json::Array(rs)) => if rs@.len() > 0 {
                str_of(member(rs@[0], "text"@))
            } else {
                None
            },
            Some(_) => None,
            None => str_of(member(o, "simpleText"@)),
        },
        None => None,
    }
}

/// Whole seconds in `m` milliseconds, rounded toward zero and held to the `i32` range.
pub open spec fn start_seconds(m: i64) -> i32 {
    let q: int = if m >= 0 {
        m / 1000
    } else {
        -((-m) / 1000)
    };
    if q > i32::MAX {
        i32::MAX
    } else if q < i32::MIN {
        i32::MIN
    } else {
        q as i32
    }
}

/// A chapter entry as its title and start.
pub open spec fn chapter_view(c: Json) -> (Seq<char>, i32) {
    (
        match text_of(at_path(c, seq!["chapterRenderer"@, "title"@])) {
            Some(t) => t,
            None => Seq::empty(),
        },
        start_seconds(
            match int_of(at_path(c, seq!["chapterRenderer"@, "timeRangeStartMillis"@])) {
                Some(m) => m,
                None => 0,
            },
        ),
    )
}

/// The index of the first marker at or after `i` whose `value.chapters` is an array.
pub open spec fn first_chapter_marker(ms: Seq<Json>, i: int) -> Option<int>
    decreases ms.len() - i,
{
    if i < 0 || i >= ms.len() {
        None
    } else if at_path(ms[i], seq!["value"@, "chapters"@]) matches Some(Json::Array(_)) {
        Some(i)
    } else {
        first_chapter_marker(ms, i + 1)
    }
}

/// The markers of the player bar of a player response.
pub open spec fn chapter_markers(info: Json) -> Seq<Json> {
    items(
        at_path(
            info,
            seq![
                "playerOverlays"@,
                "playerOverlayRenderer"@,
                "decoratedPlayerBarRenderer"@,
                "decoratedPlayerBarRenderer"@,
                "playerBar"@,
                "multiMarkersPlayerBarRenderer"@,
                "markersMap"@,
            ],
        ),
    )
}

/// The chapters that a player response lists, in order; none when it has no chapter marker.
pub open spec fn chapters_of(info: Json) -> Seq<(Seq<char>, i32)> {
    let ms = chapter_markers(info);
    match first_chapter_marker(ms, 0) {
        Some(k) => items(at_path(ms[k], seq!["value"@, "chapters"@])).map_values(
            |c: Json| chapter_view(c),
        ),
        None => Seq::empty(),
    }
}

/// The text of a text object, when it has one.
pub fn text_opt(j: Option<&Json>) -> (r: Option<String>)
    ensures
        match r {
            Some(s) => text_of(
                match j {
                    Some(v) => Some(*v),
                    None => None,
                },
            ) == Some(s@),
            None => text_of(
                match j {
                    Some(v) => Some(*v),
                    None => None,
                },
            ) is None,
        },
{
    match j {
        Some(o) => match o.get("runs") {
            Some(runs) => match runs.as_array() {
                Some(rs) => {
                    if rs.len() > 0 {
                        match rs[0].get("text") {
                            Some(t) => match t.as_str() {
                                Some(s) => Some(s.clone()),
                                None => None,
                            },
                            None => None,
                        }
                    } else {
                        None
                    }
                },
                None => None,
            },
            None => match o.get("simpleText") {
                Some(t) => match t.as_str() {
                    Some(s) => Some(s.clone()),
                    None => None,
                },
                None => None,
            },
        },
        None => None,
    }
}

fn text_of_exec(j: Option<&Json>) -> (r: String)
    ensures
        r@ == match text_of(
            match j {
                Some(v) => Some(*v),
                None => None,
            },
        ) {
            Some(t) => t,
            None => Seq::empty(),
        },
{
    match text_opt(j) {
        Some(s) => s,
        None => String::new(),
    }
}

fn start_seconds_exec(m: i64) -> (r: i32)
    ensures
        r == start_seconds(m),
{
    let q: i64 = if m >= 0 {
        m / 1000
    } else if m == i64::MIN {
        return i32::MIN;
    } else {
        -((-m) / 1000)
    };
    if q > 2147483647 {
        2147483647
    } else if q < -2147483648 {
        -2147483648
    } else {
        q as i32
    }
}

/// The chapters that a player response lists, in order: each one's title and start
/// in seconds.
pub fn get_chapters(info: &Json) -> (r: Option<Vec<Chapter>>)
    ensures
        r matches Some(v) && v@.map_values(|c: Chapter| (c.title@, c.start_time)) == chapters_of(
            *info,
        ),
{
    Some(chapter_list(info))
}

fn chapter_list(info: &Json) -> (r: Vec<Chapter>)
    ensures
        r@.map_values(|c: Chapter| (c.title@, c.start_time)) == chapters_of(*info),
{
    let markers_path: [&str; 7] = [
        "playerOverlays",
        "playerOverlayRenderer",
        "decoratedPlayerBarRenderer",
        "decoratedPlayerBarRenderer",
        "playerBar",
        "multiMarkersPlayerBarRenderer",
        "markersMap",
    ];
    assert(path_view(markers_path@) =~= seq![
        "playerOverlays"@,
        "playerOverlayRenderer"@,
        "decoratedPlayerBarRenderer"@,
        "decoratedPlayerBarRenderer"@,
        "playerBar"@,
        "multiMarkersPlayerBarRenderer"@,
        "markersMap"@,
    ]);
    let ms = array_at(info, &markers_path);
    let pv: [&str; 2] = ["value", "chapters"];
    assert(path_view(pv@) =~= seq!["value"@, "chapters"@]);
    let mut k: usize = 0;
    while k < ms.len() && array_or_none(&ms[k], &pv).is_none()
        invariant
            k <= ms@.len(),
            path_view(pv@) == seq!["value"@, "chapters"@],
            first_chapter_marker(ms@, 0) == first_chapter_marker(ms@, k as int),
        decreases ms@.len() - k,
    {
        k = k + 1;
    }
    let mut out: Vec<Chapter> = Vec::new();
    if k >= ms.len() {
        assert(out@.map_values(|c: Chapter| (c.title@, c.start_time)) =~= Seq::<(Seq<char>, i32)>::empty());
        return out;
    }
    let cs = array_at(&ms[k], &pv);
    let pt: [&str; 2] = ["chapterRenderer", "title"];
    let pm: [&str; 2] = ["chapterRenderer", "timeRangeStartMillis"];
    assert(path_view(pt@) =~= seq!["chapterRenderer"@, "title"@]);
    assert(path_view(pm@) =~= seq!["chapterRenderer"@, "timeRangeStartMillis"@]);
    let ghost want = cs@.map_values(|c: Json| chapter_view(c));
    let mut i: usize = 0;
    while i < cs.len()
        invariant
            i <= cs@.len(),
            want == cs@.map_values(|c: Json| chapter_view(c)),
            path_view(pt@) == seq!["chapterRenderer"@, "title"@],
            path_view(pm@) == seq!["chapterRenderer"@, "timeRangeStartMillis"@],
            out@.len() == i,
            out@.map_values(|c: Chapter| (c.title@, c.start_time)) == want.subrange(0, i as int),
        decreases cs@.len() - i,
    {
        let tj = cs[i].get_path(&pt);
        let title = text_of_exec(tj);
        assert(title@ == chapter_view(cs@[i as int]).0);
        let millis = match cs[i].get_path(&pm) {
            Some(v) => match v.as_i64() {
                Some(m) => m,
                None => 0,
            },
            None => 0,
        };
        let start_time = start_seconds_exec(millis);
        assert(start_time == chapter_view(cs@[i as int]).1);
        assert(want[i as int] == (title@, start_time));
        let ghost before = out@;
        out.push(Chapter { title, start_time });
        assert forall|j: int| 0 <= j < i implies #[trigger] out@[j] == before[j] by {}
        assert forall|j: int| 0 <= j < i implies (out@[j].title@, out@[j].start_time) == want[j] by {
            assert(before.map_values(|c: Chapter| (c.title@, c.start_time))[j] == want.subrange(0, i as int)[j]);
        }
        assert(out@.map_values(|c: Chapter| (c.title@, c.start_time)) =~= want.subrange(
            0,
            i + 1,
        ));
        i = i + 1;
    }
    assert(want.subrange(0, i as int) =~= want);
    out
}

fn array_or_none<'a>(j: &'a Json, path: &[&str]) -> (r: Option<&'a Vec<Json>>)
    ensures
        r is Some <==> at_path(*j, path_view(path@)) matches Some(Json::Array(_)),
{
    match j.get_path(path) {
        Some(v) => v.as_array(),
        None => None,
    }
}

} // verus!
