use vstd::prelude::*;
use crate::format::{VideoFormat, VideoFormatView};
use crate::catalog::views;
use crate::itags::{itag_meta, lookup_itag};
use crate::numbers::{is_digit, is_number, digits_value, parse_number, fits_u64};
use crate::text::{contains_lit, occurs_at, find_from, contains_seq, chars_of, string_of, occurs_lit, find_exec, sub_chars};

verus! {

/// The host that manifest addresses are rewritten to before they are fetched.
pub const CANONICAL_HOST: &'static str = "www.youtube.com";

/// An address with its host replaced, or `None` when the address does not parse or
/// cannot take that host.
pub uninterp spec fn url_with_host(url: Seq<char>, host: Seq<char>) -> Option<Seq<char>>;

/// Relies on `url::Url::parse` and `Url::set_host`: the same address on another host.
#[verifier::external_body]
fn replace_host(url: &str, host: &str) -> (r: Option<String>)
    ensures
        match r {
            Some(s) => url_with_host(url@, host@) == Some(s@),
            None => url_with_host(url@, host@) is None,
        },
{
    let mut u = url::Url::parse(url).ok()?;
    u.set_host(Some(host)).ok()?;
    Some(u.to_string())
}

/// The address to fetch a manifest from: its own address on the site's host.
pub fn manifest_request_url(url: &str) -> (r: Option<String>)
    ensures
        match r {
            Some(s) => url_with_host(url@, CANONICAL_HOST@) == Some(s@),
            None => url_with_host(url@, CANONICAL_HOST@) is None,
        },
{
    replace_host(url, CANONICAL_HOST)
}

/// The first index at or after `i` that does not hold a decimal digit.
pub open spec fn digit_end(s: Seq<char>, i: int) -> int
    decreases s.len() - i,
{
    if i < 0 || i >= s.len() || !is_digit(s[i]) {
        i
    } else {
        digit_end(s, i + 1)
    }
}

/// The format that one manifest line lists: an address with `/itag/<n>` in it whose
/// identifier the built-in table knows.
pub open spec fn line_format(line: Seq<char>) -> Option<VideoFormatView> {
    if !occurs_at(line, 0, "http"@) {
        None
    } else {
        match find_from(line, "/itag/"@, 0) {
            Some(k) => {
                let d = line.subrange(k + 6, digit_end(line, k + 6));
                if !fits_u64(d) {
                    None
                } else {
                    let itag = digits_value(d) as u64;
                    match itag_meta(itag) {
                        Some(m) => Some(
                            VideoFormatView {
                                itag,
                                mime_type: "video/ts"@,
                                container: m.container,
                                bitrate: m.bitrate,
                                audio_bitrate: if m.audio_bitrate > 0 {
                                    Some(m.audio_bitrate)
                                } else {
                                    None
                                },
                                height: if m.height > 0 {
                                    Some(m.height)
                                } else {
                                    None
                                },
                                quality_label: None,
                                content_length: None,
                                url: line,
                                has_video: m.height > 0,
                                has_audio: m.audio_bitrate > 0,
                                is_live: contains_seq(line, "yt_live_broadcast"@),
                                is_hls: true,
                                is_dash_mpd: false,
                            },
                        ),
                        None => None,
                    }
                }
            },
            None => None,
        }
    }
}

/// Where the line that starts at `p` ends.
pub open spec fn line_end(s: Seq<char>, p: int) -> int {
    match find_from(s, "\n"@, p) {
        Some(e) => e,
        None => s.len() as int,
    }
}

/// The formats that the lines of a manifest from index `p` on list, in order.
pub open spec fn manifest_from(s: Seq<char>, p: int) -> Seq<VideoFormatView>
    decreases s.len() + 1 - p,
{
    if p < 0 || p >= s.len() {
        Seq::empty()
    } else {
        let e = line_end(s, p);
        if e < p || e > s.len() {
            Seq::empty()
        } else {
            let rest = manifest_from(s, e + 1);
            match line_format(s.subrange(p, e)) {
                Some(f) => seq![f] + rest,
                None => rest,
            }
        }
    }
}

fn digit_end_exec(s: &Vec<char>, i: usize) -> (r: usize)
    requires
        i <= s@.len(),
    ensures
        r as int == digit_end(s@, i as int),
        i <= r <= s@.len(),
{
    let mut k = i;
    while k < s.len() && '0' <= s[k] && s[k] <= '9'
        invariant
            i <= k <= s@.len(),
            digit_end(s@, i as int) == digit_end(s@, k as int),
        decreases s@.len() - k,
    {
        k = k + 1;
    }
    k
}

fn line_format_exec(line: &Vec<char>) -> (r: Option<VideoFormat>)
    ensures
        match r {
            Some(f) => line_format(line@) == Some(f@),
            None => line_format(line@) is None,
        },
{
    let _n = line.len();
    if !occurs_lit(line, 0, "http") {
        return None;
    }
    proof {
        reveal_strlit("/itag/");
    }
    let key = chars_of("/itag/");
    let k = match find_exec(line, &key, 0) {
        Some(k) => k,
        None => {
            return None;
        },
    };
    let de = digit_end_exec(line, k + 6);
    let d = sub_chars(line, k + 6, de);
    let itag = match parse_number(&d) {
        Some(v) => v,
        None => {
            return None;
        },
    };
    match lookup_itag(itag) {
        Some(m) => Some(
            VideoFormat {
                itag,
                mime_type: String::from_str("video/ts"),
                container: m.container,
                bitrate: m.bitrate,
                audio_bitrate: if m.audio_bitrate > 0 {
                    Some(m.audio_bitrate)
                } else {
                    None
                },
                height: if m.height > 0 {
                    Some(m.height)
                } else {
                    None
                },
                quality_label: None,
                content_length: None,
                url: string_of(line.as_slice()),
                has_video: m.height > 0,
                has_audio: m.audio_bitrate > 0,
                is_live: contains_lit(line, "yt_live_broadcast"),
                is_hls: true,
                is_dash_mpd: false,
            },
        ),
        None => None,
    }
}

/// The formats that an HLS manifest lists, in the order of its lines: each line
/// that is an address with `/itag/<n>` in it, for an identifier that the built-in
/// table knows; other lines are skipped.
pub fn parse_manifest(text: &str) -> (r: Vec<VideoFormat>)
    ensures
        views(r@) == manifest_from(text@, 0),
{
    proof {
        reveal_strlit("\n");
    }
    let s = chars_of(text);
    let nl = chars_of("\n");
    let mut out: Vec<VideoFormat> = Vec::new();
    let mut p: usize = 0;
    assert(views(out@) =~= Seq::<VideoFormatView>::empty());
    while p < s.len()
        invariant
            p <= s@.len(),
            nl@ == "\n"@,
            nl@.len() == 1,
            manifest_from(s@, 0) == views(out@) + manifest_from(s@, p as int),
        decreases s@.len() - p,
    {
        let e = match find_exec(&s, &nl, p) {
            Some(e) => e,
            None => s.len(),
        };
        let line = sub_chars(&s, p, e);
        let ghost before = out@;
        assert(line_end(s@, p as int) == e as int);
        assert(manifest_from(s@, p as int) == match line_format(line@) {
            Some(f) => seq![f] + manifest_from(s@, e + 1),
            None => manifest_from(s@, e + 1),
        });
        assert(manifest_from(s@, s@.len() as int) == Seq::<VideoFormatView>::empty());
        match line_format_exec(&line) {
            Some(f) => {
                out.push(f);
                assert(views(out@) =~= views(before).push(f@));
                assert(views(before) + (seq![f@] + manifest_from(s@, e + 1)) =~= views(out@)
                    + manifest_from(s@, e + 1));
            },
            None => {},
        }
        if e >= s.len() {
            p = s.len();
        } else {
            p = e + 1;
        }
    }
    assert(views(out@) + Seq::<VideoFormatView>::empty() =~= views(out@));
    out
}

} // verus!
