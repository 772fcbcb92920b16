use vstd::prelude::*;
use crate::text::{occurs_at, find_from, chars_of, string_of, occurs_lit, find_exec, sub_chars};

verus! {

/// Length of every video id.
pub const ID_LEN: usize = 11;

/// The address that a watch page of a video id is reached at, without the id.
pub const BASE_URL: &'static str = "https://www.youtube.com/watch?v=";

/// A character that may stand in a video id.
pub open spec fn is_id_char(c: char) -> bool {
    ('a' <= c && c <= 'z') || ('A' <= c && c <= 'Z') || ('0' <= c && c <= '9') || c == '-' || c
        == '_'
}

/// Eleven characters, each of them a letter, a digit, `-` or `_`.
pub open spec fn is_valid_id(s: Seq<char>) -> bool {
    s.len() == 11 && forall|i: int| 0 <= i < 11 ==> is_id_char(#[trigger] s[i])
}

/// The id that starts at index `k` of `s`: eleven id characters, not followed by another.
pub open spec fn id_at(s: Seq<char>, k: int) -> Option<Seq<char>> {
    if 0 <= k && k + 11 <= s.len() && is_valid_id(s.subrange(k, k + 11)) && (k + 11 == s.len()
        || !is_id_char(s[k + 11])) {
        Some(s.subrange(k, k + 11))
    } else {
        None
    }
}

/// Where the path starts, after the scheme at `o` and one of the site's hosts.
pub open spec fn host_end(s: Seq<char>, o: int) -> int {
    if occurs_at(s, o, "www.youtube.com/"@) {
        o + "www.youtube.com/"@.len()
    } else if occurs_at(s, o, "youtube.com/"@) {
        o + "youtube.com/"@.len()
    } else if occurs_at(s, o, "m.youtube.com/"@) {
        o + "m.youtube.com/"@.len()
    } else if occurs_at(s, o, "music.youtube.com/"@) {
        o + "music.youtube.com/"@.len()
    } else if occurs_at(s, o, "gaming.youtube.com/"@) {
        o + "gaming.youtube.com/"@.len()
    } else {
        -1
    }
}

/// The id named by a path of the site that starts at index `p`.
pub open spec fn id_in_path(s: Seq<char>, p: int) -> Option<Seq<char>> {
    if occurs_at(s, p, "watch?v="@) {
        id_at(s, p + "watch?v="@.len())
    } else if occurs_at(s, p, "watch?"@) {
        match find_from(s, "&v="@, p + "watch?"@.len()) {
            Some(k) => id_at(s, k + "&v="@.len()),
            None => None,
        }
    } else if occurs_at(s, p, "embed/"@) {
        id_at(s, p + "embed/"@.len())
    } else if occurs_at(s, p, "v/"@) {
        id_at(s, p + "v/"@.len())
    } else if occurs_at(s, p, "shorts/"@) {
        id_at(s, p + "shorts/"@.len())
    } else if occurs_at(s, p, "live/"@) {
        id_at(s, p + "live/"@.len())
    } else {
        None
    }
}

/// The id named by an address whose host part starts at index `o`.
pub open spec fn id_after_scheme(s: Seq<char>, o: int) -> Option<Seq<char>> {
    if occurs_at(s, o, "youtu.be/"@) {
        id_at(s, o + "youtu.be/"@.len())
    } else {
        let p = host_end(s, o);
        if p < 0 {
            None
        } else {
            id_in_path(s, p)
        }
    }
}

/// The id that an address of the site names.
pub open spec fn url_video_id(s: Seq<char>) -> Option<Seq<char>> {
    if occurs_at(s, 0, "https://"@) {
        id_after_scheme(s, "https://"@.len() as int)
    } else if occurs_at(s, 0, "http://"@) {
        id_after_scheme(s, "http://"@.len() as int)
    } else {
        None
    }
}

/// The id that an input names: a bare id stands for itself, else the address names it.
pub open spec fn video_id_of(s: Seq<char>) -> Option<Seq<char>> {
    if is_valid_id(s) {
        Some(s)
    } else {
        url_video_id(s)
    }
}

fn is_id_char_exec(c: char) -> (r: bool)
    ensures
        r == is_id_char(c),
{
    ('a' <= c && c <= 'z') || ('A' <= c && c <= 'Z') || ('0' <= c && c <= '9') || c == '-' || c
        == '_'
}

fn is_valid_id_exec(s: &Vec<char>, k: usize) -> (r: bool)
    requires
        k + 11 <= s@.len(),
    ensures
        r == is_valid_id(s@.subrange(k as int, k + 11)),
{
    let _n = s.len();
    let mut i: usize = 0;
    while i < ID_LEN
        invariant
            k + 11 <= s@.len(),
            s@.len() <= usize::MAX,
            i <= 11,
            forall|m: int| 0 <= m < i ==> is_id_char(#[trigger] s@.subrange(k as int, k + 11)[m]),
        decreases 11 - i,
    {
        if !is_id_char_exec(s[k + i]) {
            assert(!is_id_char(s@.subrange(k as int, k + 11)[i as int]));
            return false;
        }
        i = i + 1;
    }
    true
}

fn id_at_exec(s: &Vec<char>, k: usize) -> (r: Option<Vec<char>>)
    ensures
        match r {
            Some(v) => id_at(s@, k as int) == Some(v@),
            None => id_at(s@, k as int) is None,
        },
{
    if k > s.len() || s.len() - k < ID_LEN {
        return None;
    }
    if !is_valid_id_exec(s, k) {
        return None;
    }
    if k + ID_LEN < s.len() && is_id_char_exec(s[k + ID_LEN]) {
        return None;
    }
    Some(sub_chars(s, k, k + ID_LEN))
}

fn host_end_exec(s: &Vec<char>, o: usize) -> (r: Option<usize>)
    ensures
        match r {
            Some(p) => host_end(s@, o as int) == p as int,
            None => host_end(s@, o as int) < 0,
        },
{
    let _n = s.len();
    if occurs_lit(s, o, "www.youtube.com/") {
        Some(o + "www.youtube.com/".unicode_len())
    } else if occurs_lit(s, o, "youtube.com/") {
        Some(o + "youtube.com/".unicode_len())
    } else if occurs_lit(s, o, "m.youtube.com/") {
        Some(o + "m.youtube.com/".unicode_len())
    } else if occurs_lit(s, o, "music.youtube.com/") {
        Some(o + "music.youtube.com/".unicode_len())
    } else if occurs_lit(s, o, "gaming.youtube.com/") {
        Some(o + "gaming.youtube.com/".unicode_len())
    } else {
        None
    }
}

fn id_in_path_exec(s: &Vec<char>, p: usize) -> (r: Option<Vec<char>>)
    ensures
        match r {
            Some(v) => id_in_path(s@, p as int) == Some(v@),
            None => id_in_path(s@, p as int) is None,
        },
{
    let _n = s.len();
    if occurs_lit(s, p, "watch?v=") {
        id_at_exec(s, p + "watch?v=".unicode_len())
    } else if occurs_lit(s, p, "watch?") {
        let key = chars_of("&v=");
        match find_exec(s, &key, p + "watch?".unicode_len()) {
            Some(k) => id_at_exec(s, k + key.len()),
            None => None,
        }
    } else if occurs_lit(s, p, "embed/") {
        id_at_exec(s, p + "embed/".unicode_len())
    } else if occurs_lit(s, p, "v/") {
        id_at_exec(s, p + "v/".unicode_len())
    } else if occurs_lit(s, p, "shorts/") {
        id_at_exec(s, p + "shorts/".unicode_len())
    } else if occurs_lit(s, p, "live/") {
        id_at_exec(s, p + "live/".unicode_len())
    } else {
        None
    }
}

fn id_after_scheme_exec(s: &Vec<char>, o: usize) -> (r: Option<Vec<char>>)
    ensures
        match r {
            Some(v) => id_after_scheme(s@, o as int) == Some(v@),
            None => id_after_scheme(s@, o as int) is None,
        },
{
    let _n = s.len();
    if occurs_lit(s, o, "youtu.be/") {
        id_at_exec(s, o + "youtu.be/".unicode_len())
    } else {
        match host_end_exec(s, o) {
            Some(p) => id_in_path_exec(s, p),
            None => None,
        }
    }
}

/// The video id that `url_or_id` names: a bare id is taken as it is; an address of
/// the site gives the id in its `v` parameter or after `youtu.be/`, `embed/`, `v/`,
/// `shorts/` or `live/`.
pub fn get_video_id(url_or_id: &str) -> (r: Option<String>)
    ensures
        match r {
            Some(id) => video_id_of(url_or_id@) == Some(id@),
            None => video_id_of(url_or_id@) is None,
        },
{
    let s = chars_of(url_or_id);
    if s.len() == ID_LEN && is_valid_id_exec(&s, 0) {
        assert(s@.subrange(0, 11) =~= s@);
        return Some(string_of(s.as_slice()));
    }
    if s.len() == ID_LEN {
        assert(s@.subrange(0, 11) =~= s@);
    }
    let found = if occurs_lit(&s, 0, "https://") {
        id_after_scheme_exec(&s, "https://".unicode_len())
    } else if occurs_lit(&s, 0, "http://") {
        id_after_scheme_exec(&s, "http://".unicode_len())
    } else {
        None
    };
    match found {
        Some(v) => Some(string_of(v.as_slice())),
        None => None,
    }
}

/// Whether `id` is a well-formed video id.
pub fn validate_id(id: &str) -> (r: bool)
    ensures
        r == is_valid_id(id@),
{
    let s = chars_of(id);
    if s.len() != ID_LEN {
        return false;
    }
    let r = is_valid_id_exec(&s, 0);
    assert(s@.subrange(0, 11) =~= s@);
    r
}

proof fn lemma_not_at(s: Seq<char>, i: int, p: Seq<char>)
    requires
        0 <= i < s.len(),
        p.len() > 0,
        s[i] != p[0],
    ensures
        !occurs_at(s, i, p),
{
    if occurs_at(s, i, p) {
        assert(s.subrange(i, i + p.len())[0] == s[i]);
    }
}

/// A character that cannot continue an id: what may follow one in an address.
pub open spec fn ends_id(rest: Seq<char>) -> bool {
    rest.len() == 0 || !is_id_char(rest[0])
}

proof fn lemma_id_then(s: Seq<char>, pre: Seq<char>, id: Seq<char>, rest: Seq<char>)
    requires
        is_valid_id(id),
        ends_id(rest),
        s == pre + id + rest,
    ensures
        id_at(s, pre.len() as int) == Some(id),
{
    let k = pre.len() as int;
    assert(s.subrange(k, k + 11) =~= id);
    if rest.len() > 0 {
        assert(s[k + 11] == rest[0]);
    }
}

proof fn lemma_short_form(id: Seq<char>, rest: Seq<char>)
    requires
        is_valid_id(id),
        ends_id(rest),
    ensures
        video_id_of("https://youtu.be/"@ + id + rest) == Some(id),
{
    reveal_strlit("https://youtu.be/");
    reveal_strlit("https://");
    reveal_strlit("youtu.be/");
    let b = "https://youtu.be/"@ + id + rest;
    assert(b.subrange(0, 8) =~= "https://"@);
    assert(b.subrange(8, 17) =~= "youtu.be/"@);
    lemma_id_then(b, "https://youtu.be/"@, id, rest);
}

proof fn lemma_watch_form(id: Seq<char>, rest: Seq<char>)
    requires
        is_valid_id(id),
        ends_id(rest),
    ensures
        video_id_of("https://www.youtube.com/watch?v="@ + id + rest) == Some(id),
{
    reveal_strlit("https://www.youtube.com/watch?v=");
    reveal_strlit("https://");
    reveal_strlit("www.youtube.com/");
    reveal_strlit("youtu.be/");
    reveal_strlit("watch?v=");
    let s = "https://www.youtube.com/watch?v="@ + id + rest;
    assert(s.subrange(0, 8) =~= "https://"@);
    lemma_not_at(s, 8, "youtu.be/"@);
    assert(s.subrange(8, 24) =~= "www.youtube.com/"@);
    assert(s.subrange(24, 32) =~= "watch?v="@);
    lemma_id_then(s, "https://www.youtube.com/watch?v="@, id, rest);
}

proof fn lemma_embed_form(id: Seq<char>, rest: Seq<char>)
    requires
        is_valid_id(id),
        ends_id(rest),
    ensures
        video_id_of("https://www.youtube.com/embed/"@ + id + rest) == Some(id),
{
    reveal_strlit("https://www.youtube.com/embed/");
    reveal_strlit("https://");
    reveal_strlit("www.youtube.com/");
    reveal_strlit("youtu.be/");
    reveal_strlit("embed/");
    reveal_strlit("watch?v=");
    reveal_strlit("watch?");
    let s = "https://www.youtube.com/embed/"@ + id + rest;
    assert(s.subrange(0, 8) =~= "https://"@);
    lemma_not_at(s, 8, "youtu.be/"@);
    assert(s.subrange(8, 24) =~= "www.youtube.com/"@);
    lemma_not_at(s, 24, "watch?v="@);
    lemma_not_at(s, 24, "watch?"@);
    assert(s.subrange(24, 30) =~= "embed/"@);
    lemma_id_then(s, "https://www.youtube.com/embed/"@, id, rest);
}

proof fn lemma_shorts_form(id: Seq<char>, rest: Seq<char>)
    requires
        is_valid_id(id),
        ends_id(rest),
    ensures
        video_id_of("https://www.youtube.com/shorts/"@ + id + rest) == Some(id),
{
    reveal_strlit("https://www.youtube.com/shorts/");
    reveal_strlit("https://");
    reveal_strlit("www.youtube.com/");
    reveal_strlit("youtu.be/");
    reveal_strlit("shorts/");
    reveal_strlit("watch?v=");
    reveal_strlit("watch?");
    reveal_strlit("embed/");
    reveal_strlit("v/");
    let s = "https://www.youtube.com/shorts/"@ + id + rest;
    assert(s.subrange(0, 8) =~= "https://"@);
    lemma_not_at(s, 8, "youtu.be/"@);
    assert(s.subrange(8, 24) =~= "www.youtube.com/"@);
    lemma_not_at(s, 24, "watch?v="@);
    lemma_not_at(s, 24, "watch?"@);
    lemma_not_at(s, 24, "embed/"@);
    lemma_not_at(s, 24, "v/"@);
    assert(s.subrange(24, 31) =~= "shorts/"@);
    lemma_id_then(s, "https://www.youtube.com/shorts/"@, id, rest);
}

proof fn lemma_live_form(id: Seq<char>, rest: Seq<char>)
    requires
        is_valid_id(id),
        ends_id(rest),
    ensures
        video_id_of("https://www.youtube.com/live/"@ + id + rest) == Some(id),
{
    reveal_strlit("https://www.youtube.com/live/");
    reveal_strlit("https://");
    reveal_strlit("www.youtube.com/");
    reveal_strlit("youtu.be/");
    reveal_strlit("live/");
    reveal_strlit("watch?v=");
    reveal_strlit("watch?");
    reveal_strlit("embed/");
    reveal_strlit("v/");
    reveal_strlit("shorts/");
    let s = "https://www.youtube.com/live/"@ + id + rest;
    assert(s.subrange(0, 8) =~= "https://"@);
    lemma_not_at(s, 8, "youtu.be/"@);
    assert(s.subrange(8, 24) =~= "www.youtube.com/"@);
    lemma_not_at(s, 24, "watch?v="@);
    lemma_not_at(s, 24, "watch?"@);
    lemma_not_at(s, 24, "embed/"@);
    lemma_not_at(s, 24, "v/"@);
    lemma_not_at(s, 24, "shorts/"@);
    assert(s.subrange(24, 29) =~= "live/"@);
    lemma_id_then(s, "https://www.youtube.com/live/"@, id, rest);
}

proof fn lemma_v_form(id: Seq<char>, rest: Seq<char>)
    requires
        is_valid_id(id),
        ends_id(rest),
    ensures
        video_id_of("https://www.youtube.com/v/"@ + id + rest) == Some(id),
{
    reveal_strlit("https://www.youtube.com/v/");
    reveal_strlit("https://");
    reveal_strlit("www.youtube.com/");
    reveal_strlit("youtu.be/");
    reveal_strlit("v/");
    reveal_strlit("watch?v=");
    reveal_strlit("watch?");
    reveal_strlit("embed/");
    let s = "https://www.youtube.com/v/"@ + id + rest;
    assert(s.subrange(0, 8) =~= "https://"@);
    lemma_not_at(s, 8, "youtu.be/"@);
    assert(s.subrange(8, 24) =~= "www.youtube.com/"@);
    lemma_not_at(s, 24, "watch?v="@);
    lemma_not_at(s, 24, "watch?"@);
    lemma_not_at(s, 24, "embed/"@);
    assert(s.subrange(24, 26) =~= "v/"@);
    lemma_id_then(s, "https://www.youtube.com/v/"@, id, rest);
}

/// A bare id, and the watch, short, embed, shorts, live and `v/` addresses made
/// from it, followed by any further parameters, all name that same id.
pub proof fn lemma_same_id_all_forms(id: Seq<char>, rest: Seq<char>)
    requires
        is_valid_id(id),
        ends_id(rest),
    ensures
        video_id_of(id) == Some(id),
        video_id_of("https://www.youtube.com/watch?v="@ + id + rest) == Some(id),
        video_id_of("https://youtu.be/"@ + id + rest) == Some(id),
        video_id_of("https://www.youtube.com/embed/"@ + id + rest) == Some(id),
        video_id_of("https://www.youtube.com/shorts/"@ + id + rest) == Some(id),
        video_id_of("https://www.youtube.com/live/"@ + id + rest) == Some(id),
        video_id_of("https://www.youtube.com/v/"@ + id + rest) == Some(id),
{
    lemma_watch_form(id, rest);
    lemma_short_form(id, rest);
    lemma_embed_form(id, rest);
    lemma_shorts_form(id, rest);
    lemma_live_form(id, rest);
    lemma_v_form(id, rest);
}

} // verus!
