use vstd::prelude::*;
use crate::decipher::{CipherOp, apply_ops, decipher_signature};
use crate::format::{Container, VideoFormat, VideoFormatView};
use crate::itags::{itag_meta, lookup_itag};
use crate::json::{Json, member, at_path, str_of, path_view};
use crate::numbers::{is_number, digits_value, parse_number, fits_u64};
use crate::text::{contains_lit, contains_seq, chars_of, find_exec, same_text};

verus! {

/// The decoded name/value pairs of a form-encoded text, in order.
pub uninterp spec fn form_pairs(text: Seq<char>) -> Seq<(Seq<char>, Seq<char>)>;

/// An address with one name/value pair appended to its query, or `None` when the
/// address does not parse.
pub uninterp spec fn url_with_pair(url: Seq<char>, key: Seq<char>, value: Seq<char>) -> Option<
    Seq<char>,
>;

/// Relies on `url::form_urlencoded::parse`: the decoded pairs, in order.
#[verifier::external_body]
fn decode_form(text: &str) -> (r: Vec<(String, String)>)
    ensures
        r@.map_values(|p: (String, String)| (p.0@, p.1@)) == form_pairs(text@),
{
    url::form_urlencoded::parse(text.as_bytes()).into_owned().collect()
}

/// Relies on `url::Url::parse` and `Url::query_pairs_mut().append_pair`: the
/// address with the pair appended, encoded, to its query.
#[verifier::external_body]
pub(crate) fn append_pair(url: &str, key: &str, value: &str) -> (r: Option<String>)
    ensures
        match r {
            Some(s) => url_with_pair(url@, key@, value@) == Some(s@),
            None => url_with_pair(url@, key@, value@) is None,
        },
{
    let mut u = url::Url::parse(url).ok()?;
    u.query_pairs_mut().append_pair(key, value);
    Some(u.to_string())
}

/// The text of member `key`, when it is a string.
pub open spec fn str_member(j: Json, key: Seq<char>) -> Option<Seq<char>> {
    str_of(member(j, key))
}

/// The integer of member `key`, when it is a number that is not negative.
pub open spec fn nat_member(j: Json, key: Seq<char>) -> Option<u64> {
    match member(j, key) {
        Some(Json::Number(n)) => if n >= 0 {
            Some(n as u64)
        } else {
            None
        },
        _ => None,
    }
}

/// The byte length that a format entry declares, written as decimal text.
pub open spec fn declared_length(j: Json) -> Option<u64> {
    match str_member(j, "contentLength"@) {
        Some(t) => if fits_u64(t) {
            Some(digits_value(t) as u64)
        } else {
            None
        },
        None => None,
    }
}

/// The container that a MIME type names.
pub open spec fn mime_container(m: Seq<char>) -> Container {
    if contains_seq(m, "/mp4"@) {
        Container::Mp4
    } else if contains_seq(m, "/webm"@) {
        Container::Webm
    } else if contains_seq(m, "/3gpp"@) {
        Container::ThreeGp
    } else if contains_seq(m, "/x-flv"@) {
        Container::Flv
    } else if contains_seq(m, "/mp2t"@) {
        Container::Ts
    } else {
        Container::Other
    }
}

/// The audio bitrate that the table gives a format identifier.
pub open spec fn table_audio_bitrate(itag: u64) -> Option<u64> {
    match itag_meta(itag) {
        Some(m) => if m.audio_bitrate > 0 {
            Some(m.audio_bitrate)
        } else {
            None
        },
        None => None,
    }
}

/// The format that a raw entry of the streaming data describes, reached at `url`;
/// `None` when the entry has no format identifier.
pub open spec fn entry_view(j: Json, url: Seq<char>) -> Option<VideoFormatView> {
    match nat_member(j, "itag"@) {
        Some(itag) => {
            let mime = match str_member(j, "mimeType"@) {
                Some(m) => m,
                None => Seq::empty(),
            };
            Some(
                VideoFormatView {
                    itag,
                    mime_type: mime,
                    container: mime_container(mime),
                    bitrate: match nat_member(j, "bitrate"@) {
                        Some(b) => b,
                        None => 0,
                    },
                    audio_bitrate: table_audio_bitrate(itag),
                    height: nat_member(j, "height"@),
                    quality_label: str_member(j, "qualityLabel"@),
                    content_length: declared_length(j),
                    url,
                    has_video: str_member(j, "qualityLabel"@) is Some,
                    has_audio: member(j, "audioQuality"@) is Some,
                    is_live: contains_seq(url, "yt_live_broadcast"@),
                    is_hls: contains_seq(url, "/manifest/hls_"@),
                    is_dash_mpd: contains_seq(url, "/manifest/dash/"@),
                },
            )
        },
        None => None,
    }
}

/// The value of the first pair named `key`.
pub open spec fn pair_value(ps: Seq<(Seq<char>, Seq<char>)>, key: Seq<char>) -> Option<Seq<char>>
    decreases ps.len(),
{
    if ps.len() == 0 {
        None
    } else if ps[0].0 == key {
        Some(ps[0].1)
    } else {
        pair_value(ps.drop_first(), key)
    }
}

/// The cipher text of an entry: `signatureCipher`, else `cipher`.
pub open spec fn cipher_text(j: Json) -> Option<Seq<char>> {
    match str_member(j, "signatureCipher"@) {
        Some(c) => Some(c),
        None => str_member(j, "cipher"@),
    }
}

/// Where an entry's bytes are: its `url`, or the address of its cipher with the
/// deciphered signature added under the cipher's parameter name (`signature` by
/// default). `None` when neither resolves, or no transform is at hand.
pub open spec fn locator(j: Json, ops: Option<Seq<CipherOp>>) -> Option<Seq<char>> {
    match str_member(j, "url"@) {
        Some(u) => Some(u),
        None => match cipher_text(j) {
            Some(c) => {
                let ps = form_pairs(c);
                match (pair_value(ps, "url"@), pair_value(ps, "s"@), ops) {
                    (Some(u), Some(s), Some(ops)) => {
                        let sp = match pair_value(ps, "sp"@) {
                            Some(sp) => sp,
                            None => "signature"@,
                        };
                        url_with_pair(u, sp, apply_ops(s, ops))
                    },
                    _ => None,
                }
            },
            None => None,
        },
    }
}

/// The format an entry contributes to the catalog: one with a non-empty locator
/// and a format identifier.
pub open spec fn accepted(j: Json, ops: Option<Seq<CipherOp>>) -> Option<VideoFormatView> {
    match locator(j, ops) {
        Some(u) => if u.len() > 0 {
            entry_view(j, u)
        } else {
            None
        },
        None => None,
    }
}

/// The catalog that the entries give, in their order.
pub open spec fn catalog_of(es: Seq<Json>, ops: Option<Seq<CipherOp>>) -> Seq<VideoFormatView>
    decreases es.len(),
{
    if es.len() == 0 {
        Seq::empty()
    } else {
        let rest = catalog_of(es.drop_last(), ops);
        match accepted(es.last(), ops) {
            Some(f) => rest.push(f),
            None => rest,
        }
    }
}

/// The elements of an array, none for anything else.
pub open spec fn array_items(j: Option<Json>) -> Seq<Json> {
    match j {
        Some(Json::Array(v)) => v@,
        _ => Seq::empty(),
    }
}

/// The raw format entries of a player response: `formats`, then `adaptiveFormats`.
pub open spec fn raw_entries(resp: Json) -> Seq<Json> {
    array_items(at_path(resp, seq!["streamingData"@, "formats"@])) + array_items(
        at_path(resp, seq!["streamingData"@, "adaptiveFormats"@]),
    )
}

/// The steps of a transform, as a sequence.
pub open spec fn ops_view(ops: Option<Vec<CipherOp>>) -> Option<Seq<CipherOp>> {
    match ops {
        Some(v) => Some(v@),
        None => None,
    }
}

/// The plain values of a list of formats.
pub open spec fn views(fs: Seq<VideoFormat>) -> Seq<VideoFormatView> {
    fs.map_values(|f: VideoFormat| f@)
}

fn str_member_exec<'a>(j: &'a Json, key: &str) -> (r: Option<&'a String>)
    ensures
        match r {
            Some(s) => str_member(*j, key@) == Some(s@),
            None => str_member(*j, key@) is None,
        },
{
    match j.get(key) {
        Some(v) => v.as_str(),
        None => None,
    }
}

fn nat_member_exec(j: &Json, key: &str) -> (r: Option<u64>)
    ensures
        r == nat_member(*j, key@),
{
    match j.get(key) {
        Some(v) => match v.as_i64() {
            Some(n) => if n >= 0 {
                Some(n as u64)
            } else {
                None
            },
            None => None,
        },
        None => None,
    }
}

fn mime_container_exec(m: &Vec<char>) -> (r: Container)
    ensures
        r == mime_container(m@),
{
    if contains_lit(m, "/mp4") {
        Container::Mp4
    } else if contains_lit(m, "/webm") {
        Container::Webm
    } else if contains_lit(m, "/3gpp") {
        Container::ThreeGp
    } else if contains_lit(m, "/x-flv") {
        Container::Flv
    } else if contains_lit(m, "/mp2t") {
        Container::Ts
    } else {
        Container::Other
    }
}

fn clone_opt(s: Option<&String>) -> (r: Option<String>)
    ensures
        match s {
            Some(v) => r matches Some(c) && c@ == v@,
            None => r is None,
        },
{
    match s {
        Some(v) => Some(v.clone()),
        None => None,
    }
}

/// Builds the format that a raw entry of the streaming data describes, reached at
/// `url`: fields from the entry, the audio bitrate from the built-in table, the
/// container from the MIME type and the flags from the address.
pub fn format_from_entry(j: &Json, url: String) -> (r: Option<VideoFormat>)
    ensures
        match r {
            Some(f) => entry_view(*j, url@) == Some(f@),
            None => entry_view(*j, url@) is None,
        },
{
    let itag = match nat_member_exec(j, "itag") {
        Some(i) => i,
        None => {
            return None;
        },
    };
    let mime_type = match str_member_exec(j, "mimeType") {
        Some(m) => m.clone(),
        None => String::new(),
    };
    let mime = chars_of(mime_type.as_str());
    let container = mime_container_exec(&mime);
    let bitrate = match nat_member_exec(j, "bitrate") {
        Some(b) => b,
        None => 0,
    };
    let audio_bitrate = match lookup_itag(itag) {
        Some(m) => if m.audio_bitrate > 0 {
            Some(m.audio_bitrate)
        } else {
            None
        },
        None => None,
    };
    let label = str_member_exec(j, "qualityLabel");
    let has_video = label.is_some();
    let quality_label = clone_opt(label);
    let content_length = match str_member_exec(j, "contentLength") {
        Some(t) => parse_number(&chars_of(t.as_str())),
        None => None,
    };
    let has_audio = j.get("audioQuality").is_some();
    let u = chars_of(url.as_str());
    let is_live = contains_lit(&u, "yt_live_broadcast");
    let is_hls = contains_lit(&u, "/manifest/hls_");
    let is_dash_mpd = contains_lit(&u, "/manifest/dash/");
    Some(
        VideoFormat {
            itag,
            mime_type,
            container,
            bitrate,
            audio_bitrate,
            height: nat_member_exec(j, "height"),
            quality_label,
            content_length,
            url,
            has_video,
            has_audio,
            is_live,
            is_hls,
            is_dash_mpd,
        },
    )
}

fn pair_value_exec(ps: &Vec<(String, String)>, key: &str) -> (r: Option<String>)
    ensures
        match r {
            Some(v) => pair_value(
                ps@.map_values(|p: (String, String)| (p.0@, p.1@)),
                key@,
            ) == Some(v@),
            None => pair_value(ps@.map_values(|p: (String, String)| (p.0@, p.1@)), key@) is None,
        },
{
    let ghost all = ps@.map_values(|p: (String, String)| (p.0@, p.1@));
    let mut i: usize = 0;
    assert(all.skip(0) =~= all);
    while i < ps.len()
        invariant
            i <= ps@.len(),
            all == ps@.map_values(|p: (String, String)| (p.0@, p.1@)),
            pair_value(all, key@) == pair_value(all.skip(i as int), key@),
        decreases ps@.len() - i,
    {
        assert(all.skip(i as int).drop_first() =~= all.skip(i + 1));
        if same_text(ps[i].0.as_str(), key) {
            return Some(ps[i].1.clone());
        }
        i = i + 1;
    }
    None
}

/// Resolves where an entry's bytes are: its `url`, or its cipher's address with the
/// signature deciphered by `ops` and added under the cipher's parameter name.
pub fn entry_locator(j: &Json, ops: &Option<Vec<CipherOp>>) -> (r: Option<String>)
    ensures
        match r {
            Some(u) => locator(*j, ops_view(*ops)) == Some(u@),
            None => locator(*j, ops_view(*ops)) is None,
        },
{
    if let Some(u) = str_member_exec(j, "url") {
        return Some(u.clone());
    }
    let c = match str_member_exec(j, "signatureCipher") {
        Some(c) => c,
        None => match str_member_exec(j, "cipher") {
            Some(c) => c,
            None => {
                return None;
            },
        },
    };
    let ps = decode_form(c.as_str());
    let u = pair_value_exec(&ps, "url");
    let s = pair_value_exec(&ps, "s");
    match (u, s, ops) {
        (Some(u), Some(s), Some(ops)) => {
            let sp = match pair_value_exec(&ps, "sp") {
                Some(sp) => sp,
                None => String::from_str("signature"),
            };
            let sig = decipher_signature(s.as_str(), ops);
            append_pair(u.as_str(), sp.as_str(), sig.as_str())
        },
        _ => None,
    }
}

fn accepted_exec(j: &Json, ops: &Option<Vec<CipherOp>>) -> (r: Option<VideoFormat>)
    ensures
        match r {
            Some(f) => accepted(*j, ops_view(*ops)) == Some(f@),
            None => accepted(*j, ops_view(*ops)) is None,
        },
{
    match entry_locator(j, ops) {
        Some(u) => {
            if u.as_str().unicode_len() == 0 {
                None
            } else {
                format_from_entry(j, u)
            }
        },
        None => None,
    }
}

fn push_accepted(out: &mut Vec<VideoFormat>, es: &Vec<Json>, ops: &Option<Vec<CipherOp>>)
    ensures
        views(final(out)@) == views(old(out)@) + catalog_of(es@, ops_view(*ops)),
{
    let ghost start = views(out@);
    let mut i: usize = 0;
    assert(es@.subrange(0, 0) =~= Seq::<Json>::empty());
    assert(start + Seq::<VideoFormatView>::empty() =~= start);
    while i < es.len()
        invariant
            i <= es@.len(),
            views(out@) == start + catalog_of(es@.subrange(0, i as int), ops_view(*ops)),
        decreases es@.len() - i,
    {
        let ghost before = out@;
        assert(es@.subrange(0, i + 1).drop_last() =~= es@.subrange(0, i as int));
        match accepted_exec(&es[i], ops) {
            Some(f) => {
                out.push(f);
                assert(views(out@) =~= views(before).push(f@));
                assert(start + catalog_of(es@.subrange(0, i + 1), ops_view(*ops)) =~= (start
                    + catalog_of(es@.subrange(0, i as int), ops_view(*ops))).push(f@));
            },
            None => {},
        }
        i = i + 1;
    }
    assert(es@.subrange(0, i as int) =~= es@);
}

proof fn lemma_catalog_append(a: Seq<Json>, b: Seq<Json>, ops: Option<Seq<CipherOp>>)
    ensures
        catalog_of(a + b, ops) == catalog_of(a, ops) + catalog_of(b, ops),
    decreases b.len(),
{
    if b.len() == 0 {
        assert(a + b =~= a);
        assert(catalog_of(a, ops) + Seq::<VideoFormatView>::empty() =~= catalog_of(a, ops));
    } else {
        assert((a + b).drop_last() =~= a + b.drop_last());
        lemma_catalog_append(a, b.drop_last(), ops);
        match accepted(b.last(), ops) {
            Some(f) => {
                assert(catalog_of(a, ops) + catalog_of(b.drop_last(), ops).push(f) =~= (catalog_of(
                    a,
                    ops,
                ) + catalog_of(b.drop_last(), ops)).push(f));
            },
            None => {},
        }
    }
}

/// Builds the catalog of a player response: each entry of `formats` and then of
/// `adaptiveFormats` whose locator resolves, deciphered by `ops` where it carries a
/// cipher. An entry that cannot be resolved is left out; the others stay.
pub fn parse_video_formats(resp: &Json, ops: &Option<Vec<CipherOp>>) -> (r: Vec<VideoFormat>)
    ensures
        views(r@) == catalog_of(raw_entries(*resp), ops_view(*ops)),
{
    let mut out: Vec<VideoFormat> = Vec::new();
    let empty: Vec<Json> = Vec::new();
    let formats_path: [&str; 2] = ["streamingData", "formats"];
    let adaptive_path: [&str; 2] = ["streamingData", "adaptiveFormats"];
    assert(path_view(formats_path@) =~= seq!["streamingData"@, "formats"@]);
    assert(path_view(adaptive_path@) =~= seq!["streamingData"@, "adaptiveFormats"@]);
    let first = match resp.get_path(&formats_path) {
        Some(v) => match v.as_array() {
            Some(a) => a,
            None => &empty,
        },
        None => &empty,
    };
    let second = match resp.get_path(&adaptive_path) {
        Some(v) => match v.as_array() {
            Some(a) => a,
            None => &empty,
        },
        None => &empty,
    };
    assert(views(out@) =~= Seq::<VideoFormatView>::empty());
    push_accepted(&mut out, first, ops);
    push_accepted(&mut out, second, ops);
    proof {
        lemma_catalog_append(first@, second@, ops_view(*ops));
        assert(Seq::<VideoFormatView>::empty() + catalog_of(first@, ops_view(*ops)) =~= catalog_of(
            first@,
            ops_view(*ops),
        ));
    }
    out
}

/// An entry that carries its own `url`.
pub open spec fn is_direct(j: Json) -> bool {
    str_member(j, "url"@) is Some
}

/// The entries that carry their own `url`, in order.
pub open spec fn direct_entries(es: Seq<Json>) -> Seq<Json>
    decreases es.len(),
{
    if es.len() == 0 {
        es
    } else if is_direct(es.last()) {
        direct_entries(es.drop_last()).push(es.last())
    } else {
        direct_entries(es.drop_last())
    }
}

/// Without a signature transform (the player script had an unsupported shape) the
/// catalog still holds every entry with its own `url`, as it would with any
/// transform: only the ciphered entries drop out, and nothing fails.
pub proof fn lemma_no_transform_drops_only_ciphered(es: Seq<Json>, ops: Option<Seq<CipherOp>>)
    ensures
        catalog_of(es, None) == catalog_of(direct_entries(es), ops),
    decreases es.len(),
{
    if es.len() > 0 {
        lemma_no_transform_drops_only_ciphered(es.drop_last(), ops);
        let d = direct_entries(es.drop_last());
        if is_direct(es.last()) {
            assert(direct_entries(es).drop_last() =~= d);
        }
    }
}

/// An entry that cannot be resolved (a cipher without a usable transform, a
/// locator that does not parse) drops out alone: the catalog is the one built
/// without it, every other format kept in the same order.
pub proof fn lemma_unresolved_entry_drops_alone(es: Seq<Json>, i: int, ops: Option<Seq<CipherOp>>)
    requires
        0 <= i < es.len(),
        accepted(es[i], ops) is None,
    ensures
        catalog_of(es, ops) == catalog_of(es.remove(i), ops),
{
    let a = es.subrange(0, i);
    let b = es.subrange(i + 1, es.len() as int);
    assert(es =~= a + seq![es[i]] + b);
    assert(es.remove(i) =~= a + b);
    lemma_catalog_append(a + seq![es[i]], b, ops);
    lemma_catalog_append(a, seq![es[i]], ops);
    lemma_catalog_append(a, b, ops);
    let one = seq![es[i]];
    assert(one.drop_last() =~= Seq::<Json>::empty());
    assert(one.last() == es[i]);
    assert(catalog_of(Seq::<Json>::empty(), ops) == Seq::<VideoFormatView>::empty());
    assert(catalog_of(one, ops) == catalog_of(one.drop_last(), ops));
    assert(catalog_of(a, ops) + Seq::<VideoFormatView>::empty() =~= catalog_of(a, ops));
}

} // verus!
