use vstd::prelude::*;
use crate::error::VideoError;
use crate::json::{Json, parse_json, is_json_text};
use crate::text::{find_from, chars_of, string_of, find_exec, sub_chars};

verus! {

/// The text that assigns the player response in a watch page.
pub const PLAYER_RESPONSE_MARKER: &'static str = "var ytInitialPlayerResponse =";

/// The text that assigns the initial data in a watch page.
pub const INITIAL_DATA_MARKER: &'static str = "var ytInitialData =";

/// The inner text of each `script` element of an HTML document, in document order.
pub uninterp spec fn script_texts(html: Seq<char>) -> Seq<Seq<char>>;

/// Relies on `scraper::Html::parse_document`, `Selector::parse` and
/// `ElementRef::inner_html`: the inner text of each `script` element, in order.
#[verifier::external_body]
fn scripts_of(html: &str) -> (r: Vec<String>)
    ensures
        r@.map_values(|s: String| s@) == script_texts(html@),
{
    let doc = scraper::Html::parse_document(html);
    let sel = scraper::Selector::parse("script").unwrap();
    doc.select(&sel).map(|e| e.inner_html()).collect()
}

/// Unicode white space (the `White_Space` property), as `str::trim` strips it.
pub open spec fn is_space(c: char) -> bool {
    ('\u{9}' <= c && c <= '\u{d}') || c == ' ' || c == '\u{85}' || c == '\u{a0}' || c == '\u{1680}'
        || ('\u{2000}' <= c && c <= '\u{200a}') || c == '\u{2028}' || c == '\u{2029}' || c
        == '\u{202f}' || c == '\u{205f}' || c == '\u{3000}'
}

/// The first index at or after `i` that is not white space.
pub open spec fn skip_space(s: Seq<char>, i: int) -> int
    decreases s.len() - i,
{
    if i < 0 || i >= s.len() || !is_space(s[i]) {
        i
    } else {
        skip_space(s, i + 1)
    }
}

/// The end of `s` below `j` once trailing white space down to `lo` is dropped.
pub open spec fn trim_end(s: Seq<char>, lo: int, j: int) -> int
    decreases j - lo,
{
    if j <= lo || j > s.len() || !is_space(s[j - 1]) {
        j
    } else {
        trim_end(s, lo, j - 1)
    }
}

/// The value that a script assigns after `marker`: the text after the first
/// occurrence, trimmed, without a final `;`.
pub open spec fn assigned_value(script: Seq<char>, marker: Seq<char>) -> Option<Seq<char>> {
    match find_from(script, marker, 0) {
        Some(k) => {
            let b = skip_space(script, k + marker.len());
            let e = trim_end(script, b, script.len() as int);
            let t = script.subrange(b, e);
            if t.len() > 0 && t.last() == ';' {
                Some(t.drop_last())
            } else {
                Some(t)
            }
        },
        None => None,
    }
}

/// The value assigned after `marker` in the first script, from index `i` on, that holds it.
pub open spec fn first_assigned(scripts: Seq<Seq<char>>, marker: Seq<char>, i: int) -> Option<
    Seq<char>,
>
    decreases scripts.len() - i,
{
    if i < 0 || i >= scripts.len() {
        None
    } else {
        match assigned_value(scripts[i], marker) {
            Some(v) => Some(v),
            None => first_assigned(scripts, marker, i + 1),
        }
    }
}

pub(crate) fn is_space_exec(c: char) -> (r: bool)
    ensures
        r == is_space(c),
{
    ('\u{9}' <= c && c <= '\u{d}') || c == ' ' || c == '\u{85}' || c == '\u{a0}' || c == '\u{1680}'
        || ('\u{2000}' <= c && c <= '\u{200a}') || c == '\u{2028}' || c == '\u{2029}' || c
        == '\u{202f}' || c == '\u{205f}' || c == '\u{3000}'
}

fn assigned_value_exec(script: &Vec<char>, marker: &Vec<char>) -> (r: Option<Vec<char>>)
    ensures
        match r {
            Some(v) => assigned_value(script@, marker@) == Some(v@),
            None => assigned_value(script@, marker@) is None,
        },
{
    let _n = script.len();
    let k = match find_exec(script, marker, 0) {
        Some(k) => k,
        None => {
            return None;
        },
    };
    let mut b = k + marker.len();
    while b < script.len() && is_space_exec(script[b])
        invariant
            k + marker@.len() <= b <= script@.len(),
            skip_space(script@, k + marker@.len()) == skip_space(script@, b as int),
        decreases script@.len() - b,
    {
        b = b + 1;
    }
    let mut e = script.len();
    while e > b && is_space_exec(script[e - 1])
        invariant
            b <= e <= script@.len(),
            trim_end(script@, b as int, script@.len() as int) == trim_end(script@, b as int, e as int),
        decreases e,
    {
        e = e - 1;
    }
    let t = sub_chars(script, b, e);
    if t.len() > 0 && t[t.len() - 1] == ';' {
        let d = sub_chars(&t, 0, t.len() - 1);
        assert(d@ =~= t@.drop_last());
        Some(d)
    } else {
        Some(t)
    }
}

/// The value assigned after `marker` in the first script that holds it.
pub fn find_assigned(scripts: &Vec<String>, marker: &str) -> (r: Option<String>)
    ensures
        match r {
            Some(v) => first_assigned(
                scripts@.map_values(|s: String| s@),
                marker@,
                0,
            ) == Some(v@),
            None => first_assigned(scripts@.map_values(|s: String| s@), marker@, 0) is None,
        },
{
    let ghost all = scripts@.map_values(|s: String| s@);
    let m = chars_of(marker);
    let mut i: usize = 0;
    while i < scripts.len()
        invariant
            i <= scripts@.len(),
            m@ == marker@,
            all == scripts@.map_values(|s: String| s@),
            first_assigned(all, marker@, 0) == first_assigned(all, marker@, i as int),
        decreases scripts@.len() - i,
    {
        let s = chars_of(scripts[i].as_str());
        if let Some(v) = assigned_value_exec(&s, &m) {
            return Some(string_of(v.as_slice()));
        }
        i = i + 1;
    }
    None
}

/// The two documents a watch page seeds its client with: the player response and
/// the initial data.
pub open spec fn page_blobs(html: Seq<char>) -> Option<(Seq<char>, Seq<char>)> {
    match (
        first_assigned(script_texts(html), PLAYER_RESPONSE_MARKER@, 0),
        first_assigned(script_texts(html), INITIAL_DATA_MARKER@, 0),
    ) {
        (Some(p), Some(d)) => Some((p, d)),
        _ => None,
    }
}

/// Pulls the player response and the initial data, as text, out of a watch page.
/// Fails with `ParseError` when either is missing.
pub fn extract_blobs(html: &str) -> (r: Result<(String, String), VideoError>)
    ensures
        match r {
            Ok((p, d)) => page_blobs(html@) == Some((p@, d@)),
            Err(e) => page_blobs(html@) is None && e == VideoError::ParseError,
        },
{
    let scripts = scripts_of(html);
    let player = find_assigned(&scripts, PLAYER_RESPONSE_MARKER);
    let data = find_assigned(&scripts, INITIAL_DATA_MARKER);
    match (player, data) {
        (Some(p), Some(d)) => Ok((p, d)),
        _ => Err(VideoError::ParseError),
    }
}

/// Pulls the player response and the initial data out of a watch page and parses
/// them. Fails with `ParseError` when either is missing or is not JSON.
pub fn parse_watch_page(html: &str) -> (r: Result<(Json, Json), VideoError>)
    ensures
        r is Ok <==> (page_blobs(html@) matches Some((p, d)) && is_json_text(p) && is_json_text(
            d,
        )),
        r is Err ==> r == Err::<(Json, Json), VideoError>(VideoError::ParseError),
{
    let (p, d) = match extract_blobs(html) {
        Ok(pair) => pair,
        Err(e) => {
            return Err(e);
        },
    };
    match (parse_json(p.as_str()), parse_json(d.as_str())) {
        (Some(pj), Some(dj)) => Ok((pj, dj)),
        _ => Err(VideoError::ParseError),
    }
}

} // verus!
