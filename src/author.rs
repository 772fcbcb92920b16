use vstd::prelude::*;
use crate::extract::{skip_space, trim_end};
use crate::extras::{items, text_of, watch_contents};
use crate::json::{Json, member, at_path, str_of, path_view};
use crate::numbers::{is_digit, is_number, digits_value, parse_number, pow10};
use crate::text::{chars_of, string_of, sub_chars};
use crate::storyboard::{split_from, split_exec};

verus! {

/// One image of a channel's avatar.
#[derive(Debug)]
pub struct Thumbnail {
    pub width: u64,
    pub height: u64,
    pub url: String,
}

/// The channel that published a video.
#[derive(Debug)]
pub struct Author {
    pub id: String,
    pub name: String,
    pub user: String,
    pub channel_url: String,
    pub external_channel_url: String,
    pub user_url: String,
    pub thumbnails: Vec<Thumbnail>,
    pub verified: bool,
    pub subscriber_count: i32,
}

/// `s` with each `,` read as `.` and each space left out.
pub open spec fn normalized(s: Seq<char>) -> Seq<char>
    decreases s.len(),
{
    if s.len() == 0 {
        s
    } else {
        let r = normalized(s.drop_last());
        if s.last() == ' ' {
            r
        } else if s.last() == ',' {
            r.push('.')
        } else {
            r.push(s.last())
        }
    }
}

/// A character of a written number: a digit or `.`.
pub open spec fn is_num_char(c: char) -> bool {
    is_digit(c) || c == '.'
}

/// The first index at or after `i` where `is_num_char` is `want`.
pub open spec fn scan(t: Seq<char>, i: int, want: bool) -> int
    decreases t.len() - i,
{
    if i < 0 || i >= t.len() || is_num_char(t[i]) == want {
        i
    } else {
        scan(t, i + 1, want)
    }
}

/// The number that `run` writes, times `mult`, rounded half up: digits, then at most
/// one `.` and up to six more digits; `None` when it has another shape.
pub open spec fn scaled_value(run: Seq<char>, mult: nat) -> Option<nat> {
    let d = scan_dot(run, 0);
    let ip = run.subrange(0, d);
    let fp = if d < run.len() {
        run.subrange(d + 1, run.len() as int)
    } else {
        Seq::empty()
    };
    if run.len() == 0 || run == seq!['.'] || ip.len() > 9 || fp.len() > 6 || !all_digits(ip)
        || !all_digits(fp) {
        None
    } else {
        let i = digits_value(ip);
        let f = digits_value(fp);
        let p = pow10(fp.len());
        Some(i * mult + (2 * f * mult + p) / (2 * p))
    }
}

/// The index of the first `.` at or after `i`, or the length.
pub open spec fn scan_dot(t: Seq<char>, i: int) -> int
    decreases t.len() - i,
{
    if i < 0 || i >= t.len() || t[i] == '.' {
        i
    } else {
        scan_dot(t, i + 1)
    }
}

/// Every character is a decimal digit.
pub open spec fn all_digits(t: Seq<char>) -> bool {
    forall|k: int| 0 <= k < t.len() ==> is_digit(#[trigger] t[k])
}

/// The count that an abbreviated label such as `"1.2M subscribers"` writes: the first
/// run of digits and `.`, scaled by a `K` or `M` right after it; 0 when there is
/// none, held to the `i32` range.
pub open spec fn abbreviated_count(s: Seq<char>) -> i32 {
    let t = normalized(s);
    let a = scan(t, 0, true);
    let b = scan(t, a, false);
    let mult: nat = if b < t.len() && t[b] == 'M' {
        1000000
    } else if b < t.len() && t[b] == 'K' {
        1000
    } else {
        1
    };
    match scaled_value(t.subrange(a, b), mult) {
        Some(v) => if v > i32::MAX {
            i32::MAX
        } else {
            v as i32
        },
        None => 0,
    }
}

fn normalized_exec(s: &Vec<char>) -> (r: Vec<char>)
    ensures
        r@ == normalized(s@),
{
    let mut r: Vec<char> = Vec::new();
    let mut i: usize = 0;
    assert(s@.subrange(0, 0) =~= Seq::<char>::empty());
    while i < s.len()
        invariant
            i <= s@.len(),
            r@ == normalized(s@.subrange(0, i as int)),
        decreases s@.len() - i,
    {
        assert(s@.subrange(0, i + 1).drop_last() =~= s@.subrange(0, i as int));
        let c = s[i];
        if c == ',' {
            r.push('.');
        } else if c != ' ' {
            r.push(c);
        }
        i = i + 1;
    }
    assert(s@.subrange(0, i as int) =~= s@);
    r
}

fn scan_exec(t: &Vec<char>, i: usize, want: bool) -> (r: usize)
    requires
        i <= t@.len(),
    ensures
        r as int == scan(t@, i as int, want),
        i <= r <= t@.len(),
{
    let mut k = i;
    while k < t.len() && ((('0' <= t[k] && t[k] <= '9') || t[k] == '.') != want)
        invariant
            i <= k <= t@.len(),
            scan(t@, i as int, want) == scan(t@, k as int, want),
        decreases t@.len() - k,
    {
        k = k + 1;
    }
    k
}

fn all_digits_exec(t: &Vec<char>) -> (r: bool)
    ensures
        r == all_digits(t@),
{
    let mut k: usize = 0;
    while k < t.len()
        invariant
            k <= t@.len(),
            forall|m: int| 0 <= m < k ==> is_digit(#[trigger] t@[m]),
        decreases t@.len() - k,
    {
        if !('0' <= t[k] && t[k] <= '9') {
            return false;
        }
        k = k + 1;
    }
    true
}

fn digits_u64(t: &Vec<char>) -> (r: u64)
    requires
        all_digits(t@),
        t@.len() <= 9,
    ensures
        r as nat == digits_value(t@),
        r < 1000000000,
{
    proof {
        crate::numbers::lemma_digits_below(t@);
        crate::numbers::lemma_pow10_mono(t@.len(), 9);
        reveal_with_fuel(pow10, 10);
        assert(pow10(9) == 1000000000);
    }
    if t.len() == 0 {
        return 0;
    }
    match parse_number(t) {
        Some(v) => v,
        None => 0,
    }
}

fn pow10_exec(k: usize) -> (r: u64)
    requires
        k <= 6,
    ensures
        r as nat == pow10(k as nat),
        1 <= r <= 1000000,
{
    let mut r: u64 = 1;
    let mut i: usize = 0;
    while i < k
        invariant
            i <= k <= 6,
            r as nat == pow10(i as nat),
            1 <= r <= 1000000,
        decreases k - i,
    {
        proof {
            crate::numbers::lemma_pow10_mono((i + 1) as nat, 6);
            reveal_with_fuel(pow10, 7);
        }
        r = r * 10;
        i = i + 1;
    }
    r
}

fn scan_dot_exec(t: &Vec<char>) -> (r: usize)
    ensures
        r as int == scan_dot(t@, 0),
        r <= t@.len(),
{
    let mut k: usize = 0;
    while k < t.len() && t[k] != '.'
        invariant
            k <= t@.len(),
            scan_dot(t@, 0) == scan_dot(t@, k as int),
        decreases t@.len() - k,
    {
        k = k + 1;
    }
    k
}

fn scaled_value_exec(run: &Vec<char>, mult: u64) -> (r: Option<u64>)
    requires
        1 <= mult <= 1000000,
    ensures
        match r {
            Some(v) => scaled_value(run@, mult as nat) == Some(v as nat),
            None => scaled_value(run@, mult as nat) is None,
        },
{
    let d = scan_dot_exec(run);
    let ip = sub_chars(run, 0, d);
    let fp = if d < run.len() {
        sub_chars(run, d + 1, run.len())
    } else {
        Vec::new()
    };
    let only_dot = run.len() == 1 && run[0] == '.';
    if only_dot {
        assert(run@ =~= seq!['.']);
    }
    if run.len() == 0 || only_dot || ip.len() > 9 || fp.len() > 6 || !all_digits_exec(&ip)
        || !all_digits_exec(&fp) {
        proof {
            if run@ == seq!['.'] {
                assert(run@.len() == 1 && run@[0] == '.');
            }
        }
        return None;
    }
    assert(run@ != seq!['.']) by {
        if run@ == seq!['.'] {
            assert(run@[0] == '.');
        }
    }
    let i = digits_u64(&ip);
    let f = digits_u64(&fp);
    let p = pow10_exec(fp.len());
    assert(i * mult <= 1000000000000000) by (nonlinear_arith)
        requires
            i < 1000000000,
            mult <= 1000000,
    ;
    assert(f < p) by {
        crate::numbers::lemma_digits_below(fp@);
    }
    assert(2 * f * mult + p <= 2000000000001000000) by (nonlinear_arith)
        requires
            f < p,
            p <= 1000000,
            mult <= 1000000,
    ;
    let frac = (2 * f * mult + p) / (2 * p);
    assert(frac <= 2 * f * mult + p) by (nonlinear_arith)
        requires
            p >= 1,
            frac == (2 * f * mult + p) / (2 * p),
    ;
    Some(i * mult + frac)
}

/// Reads an abbreviated count such as `"1.2M subscribers"` or `"532K"`.
pub fn parse_abbreviated_number(s: &str) -> (r: i32)
    ensures
        r == abbreviated_count(s@),
{
    let t = normalized_exec(&chars_of(s));
    let a = scan_exec(&t, 0, true);
    let b = scan_exec(&t, a, false);
    let mult: u64 = if b < t.len() && t[b] == 'M' {
        1000000
    } else if b < t.len() && t[b] == 'K' {
        1000
    } else {
        1
    };
    let run = sub_chars(&t, a, b);
    match scaled_value_exec(&run, mult) {
        Some(v) => if v > 2147483647 {
            2147483647
        } else {
            v as i32
        },
        None => 0,
    }
}

/// What an author holds, as plain values; each avatar as width, height and address.
pub struct AuthorView {
    pub id: Seq<char>,
    pub name: Seq<char>,
    pub user: Seq<char>,
    pub channel_url: Seq<char>,
    pub external_channel_url: Seq<char>,
    pub user_url: Seq<char>,
    pub thumbnails: Seq<(u64, u64, Seq<char>)>,
    pub verified: bool,
    pub subscriber_count: i32,
}

/// The plain values of an author.
pub open spec fn author_view(a: Author) -> AuthorView {
    AuthorView {
        id: a.id@,
        name: a.name@,
        user: a.user@,
        channel_url: a.channel_url@,
        external_channel_url: a.external_channel_url@,
        user_url: a.user_url@,
        thumbnails: a.thumbnails@.map_values(|x: Thumbnail| (x.width, x.height, x.url@)),
        verified: a.verified,
        subscriber_count: a.subscriber_count,
    }
}

/// The value at `path` under `o`, when there is one.
pub open spec fn at_opt(o: Option<Json>, path: Seq<Seq<char>>) -> Option<Json> {
    match o {
        Some(j) => at_path(j, path),
        None => None,
    }
}

/// The text that `j` holds, empty when it holds none.
pub open spec fn text_or_empty(j: Option<Json>) -> Seq<char> {
    match str_of(j) {
        Some(t) => t,
        None => Seq::empty(),
    }
}

/// `t` without leading and trailing white space.
pub open spec fn trimmed(t: Seq<char>) -> Seq<char> {
    let b = skip_space(t, 0);
    t.subrange(b, trim_end(t, b, t.len() as int))
}

/// The index of the first result at or after `i` with a non-null owner renderer.
pub open spec fn first_owner(rs: Seq<Json>, i: int) -> Option<int>
    decreases rs.len() - i,
{
    if i < 0 || i >= rs.len() {
        None
    } else if at_path(rs[i], seq!["videoSecondaryInfoRenderer"@, "owner"@, "videoOwnerRenderer"@])
        matches Some(v) && v != Json::Null {
        Some(i)
    } else {
        first_owner(rs, i + 1)
    }
}

/// The owner renderer of the initial data.
pub open spec fn owner_of(initial: Json) -> Option<Json> {
    let rs = watch_contents(initial);
    match first_owner(rs, 0) {
        Some(k) => at_path(rs[k], seq!["videoSecondaryInfoRenderer"@, "owner"@, "videoOwnerRenderer"@]),
        None => None,
    }
}

/// An `i64` read as a `u64`, two's complement, as `as` casts it.
pub open spec fn as_unsigned(n: int) -> u64 {
    if n >= 0 {
        n as u64
    } else {
        (n + 18446744073709551616) as u64
    }
}

/// The `i64` that a text writes: decimal digits after an optional `+` or `-`.
pub open spec fn signed_value(t: Seq<char>) -> Option<int> {
    if t.len() > 0 && t[0] == '-' {
        let d = t.drop_first();
        if is_number(d) && digits_value(d) <= 9223372036854775808 {
            Some(-(digits_value(d) as int))
        } else {
            None
        }
    } else {
        let d = if t.len() > 0 && t[0] == '+' {
            t.drop_first()
        } else {
            t
        };
        if is_number(d) && digits_value(d) <= i64::MAX {
            Some(digits_value(d) as int)
        } else {
            None
        }
    }
}

/// A dimension of an avatar: a number, or the text of an `i64`, read as a `u64`;
/// 0 otherwise.
pub open spec fn dimension(j: Option<Json>) -> u64 {
    match j {
        Some(Json::Str(s)) => match signed_value(s@) {
            Some(n) => as_unsigned(n),
            None => 0,
        },
        Some(Json::Number(n)) => as_unsigned(n as int),
        _ => 0,
    }
}

/// An avatar entry as width, height and address.
pub open spec fn thumb_view(x: Json) -> (u64, u64, Seq<char>) {
    (dimension(member(x, "width"@)), dimension(member(x, "height"@)), text_or_empty(member(x, "url"@)))
}

/// The index of the first badge at or after `i` whose tooltip is `Verified`.
pub open spec fn first_verified(bs: Seq<Json>, i: int) -> Option<int>
    decreases bs.len() - i,
{
    if i < 0 || i >= bs.len() {
        None
    } else if str_of(at_path(bs[i], seq!["metadataBadgeRenderer"@, "tooltip"@])) == Some("Verified"@) {
        Some(i)
    } else {
        first_verified(bs, i + 1)
    }
}

/// The author that the initial data and the player response describe.
pub open spec fn author_of(initial: Json, player: Json) -> AuthorView {
    let owner = owner_of(initial);
    let channel_id = text_or_empty(at_opt(owner, seq!["navigationEndpoint"@, "browseEndpoint"@, "browseId"@]));
    let md = at_path(player, seq!["microformat"@, "playerMicroformatRenderer"@]);
    let has_md = md matches Some(Json::Object(es)) && es@.len() > 0;
    let vd_channel = text_or_empty(at_path(player, seq!["videoDetails"@, "channelId"@]));
    let fallback = if channel_id.len() > 0 {
        channel_id
    } else {
        vd_channel
    };
    let id = if md matches Some(Json::Object(_)) && at_opt(md, seq!["channelId"@]) is Some {
        match str_of(at_opt(md, seq!["channelId"@])) {
            Some(c) => c,
            None => fallback,
        }
    } else {
        fallback
    };
    let user = if has_md {
        split_from(trimmed(text_or_empty(at_opt(md, seq!["ownerProfileUrl"@]))), '/', 0).last()
    } else {
        Seq::empty()
    };
    let vd_author = text_or_empty(at_path(player, seq!["videoDetails"@, "author"@]));
    let ext = trimmed(text_or_empty(at_opt(md, seq!["externalChannelId"@])));
    AuthorView {
        id,
        name: if has_md {
            match str_of(at_opt(md, seq!["ownerChannelName"@])) {
                Some(n) => n,
                None => vd_author,
            }
        } else {
            vd_author
        },
        user,
        channel_url: "https://www.youtube.com/channel/"@ + id,
        external_channel_url: if has_md && ext.len() > 0 {
            "https://www.youtube.com/channel/"@ + ext
        } else {
            Seq::empty()
        },
        user_url: if trimmed(user).len() > 0 {
            "https://www.youtube.com/"@ + user
        } else {
            Seq::empty()
        },
        thumbnails: items(at_opt(owner, seq!["thumbnail"@, "thumbnails"@])).map_values(
            |x: Json| thumb_view(x),
        ),
        verified: first_verified(items(at_opt(owner, seq!["badges"@])), 0) is Some,
        subscriber_count: abbreviated_count(
            match text_of(at_opt(owner, seq!["subscriberCountText"@])) {
                Some(t) => t,
                None => "0"@,
            },
        ),
    }
}

fn opt_path<'a>(o: Option<&'a Json>, path: &[&str]) -> (r: Option<&'a Json>)
    ensures
        match r {
            Some(v) => at_opt(
                match o {
                    Some(j) => Some(*j),
                    None => None,
                },
                path_view(path@),
            ) == Some(*v),
            None => at_opt(
                match o {
                    Some(j) => Some(*j),
                    None => None,
                },
                path_view(path@),
            ) is None,
        },
{
    match o {
        Some(j) => j.get_path(path),
        None => None,
    }
}

fn text_or_empty_exec(o: Option<&Json>) -> (r: String)
    ensures
        r@ == text_or_empty(
            match o {
                Some(j) => Some(*j),
                None => None,
            },
        ),
{
    match o {
        Some(j) => match j.as_str() {
            Some(s) => s.clone(),
            None => String::new(),
        },
        None => String::new(),
    }
}

fn trimmed_exec(t: &Vec<char>) -> (r: Vec<char>)
    ensures
        r@ == trimmed(t@),
{
    let mut b: usize = 0;
    while b < t.len() && crate::extract::is_space_exec(t[b])
        invariant
            b <= t@.len(),
            skip_space(t@, 0) == skip_space(t@, b as int),
        decreases t@.len() - b,
    {
        b = b + 1;
    }
    let mut e = t.len();
    while e > b && crate::extract::is_space_exec(t[e - 1])
        invariant
            b <= e <= t@.len(),
            trim_end(t@, b as int, t@.len() as int) == trim_end(t@, b as int, e as int),
        decreases e,
    {
        e = e - 1;
    }
    sub_chars(t, b, e)
}

fn signed_text_exec(s: &String) -> (r: u64)
    ensures
        r == match signed_value(s@) {
            Some(n) => as_unsigned(n),
            None => 0,
        },
{
    let t = chars_of(s.as_str());
    let negative = t.len() > 0 && t[0] == '-';
    let digits = if t.len() > 0 && (t[0] == '-' || t[0] == '+') {
        sub_chars(&t, 1, t.len())
    } else {
        sub_chars(&t, 0, t.len())
    };
    assert(t@.len() > 0 ==> t@.drop_first() =~= t@.subrange(1, t@.len() as int));
    assert(t@.subrange(0, t@.len() as int) =~= t@);
    match parse_number(&digits) {
        Some(v) => {
            if negative {
                if v > 9223372036854775808 {
                    0
                } else if v == 0 {
                    0
                } else {
                    u64::MAX - (v - 1)
                }
            } else if v > 9223372036854775807 {
                0
            } else {
                v
            }
        },
        None => 0,
    }
}

fn dimension_exec(o: Option<&Json>) -> (r: u64)
    ensures
        r == dimension(
            match o {
                Some(j) => Some(*j),
                None => None,
            },
        ),
{
    match o {
        Some(Json::Str(s)) => signed_text_exec(s),
        Some(Json::Number(n)) => if *n >= 0 {
            *n as u64
        } else {
            u64::MAX - ((-(*n + 1)) as u64)
        },
        _ => 0,
    }
}

fn owner_present(r: &Json, po: &[&str]) -> (b: bool)
    ensures
        b == (at_path(*r, path_view(po@)) matches Some(v) && v != Json::Null),
{
    match r.get_path(po) {
        Some(Json::Null) => false,
        Some(_) => true,
        None => false,
    }
}

fn thumbnails_of(xs: &[Json]) -> (r: Vec<Thumbnail>)
    ensures
        r@.map_values(|x: Thumbnail| (x.width, x.height, x.url@)) == xs@.map_values(
            |x: Json| thumb_view(x),
        ),
{
    let ghost want = xs@.map_values(|x: Json| thumb_view(x));
    let mut out: Vec<Thumbnail> = Vec::new();
    let mut i: usize = 0;
    while i < xs.len()
        invariant
            i <= xs@.len(),
            want == xs@.map_values(|x: Json| thumb_view(x)),
            out@.len() == i,
            out@.map_values(|x: Thumbnail| (x.width, x.height, x.url@)) == want.subrange(0, i as int),
        decreases xs@.len() - i,
    {
        let width = dimension_exec(xs[i].get("width"));
        let height = dimension_exec(xs[i].get("height"));
        let url = text_or_empty_exec(xs[i].get("url"));
        assert(want[i as int] == (width, height, url@));
        let ghost before = out@;
        out.push(Thumbnail { width, height, url });
        assert forall|m: int| 0 <= m < i implies #[trigger] out@[m] == before[m] by {}
        assert forall|m: int| 0 <= m < i implies (out@[m].width, out@[m].height, out@[m].url@) == want[m] by {
            assert(before.map_values(|x: Thumbnail| (x.width, x.height, x.url@))[m] == want.subrange(0, i as int)[m]);
        }
        assert(out@.map_values(|x: Thumbnail| (x.width, x.height, x.url@)) =~= want.subrange(0, i + 1));
        i = i + 1;
    }
    assert(want.subrange(0, i as int) =~= want);
    out
}

fn any_verified(bs: &[Json]) -> (r: bool)
    ensures
        r == first_verified(bs@, 0) is Some,
{
    let p: [&str; 2] = ["metadataBadgeRenderer", "tooltip"];
    assert(path_view(p@) =~= seq!["metadataBadgeRenderer"@, "tooltip"@]);
    let mut i: usize = 0;
    while i < bs.len()
        invariant
            i <= bs@.len(),
            path_view(p@) == seq!["metadataBadgeRenderer"@, "tooltip"@],
            first_verified(bs@, 0) == first_verified(bs@, i as int),
        decreases bs@.len() - i,
    {
        if crate::json::str_at_is(&bs[i], &p, "Verified") {
            return true;
        }
        i = i + 1;
    }
    false
}

fn joined(head: &str, tail: &Vec<char>) -> (r: String)
    ensures
        r@ == head@ + tail@,
{
    let mut s = String::from_str(head);
    let t = string_of(tail.as_slice());
    s.append(t.as_str());
    s
}

/// The author of a video, from the owner renderer of the initial data and the
/// microformat and details of the player response.
pub fn get_author(initial: &Json, player: &Json) -> (r: Option<Author>)
    ensures
        r matches Some(a) && author_view(a) == author_of(*initial, *player),
{
    Some(author_from(initial, player))
}

fn author_from(initial: &Json, player: &Json) -> (r: Author)
    ensures
        author_view(r) == author_of(*initial, *player),
{
    let ghost spec = author_of(*initial, *player);
    let contents_path: [&str; 5] = ["contents", "twoColumnWatchNextResults", "results", "results", "contents"];
    assert(path_view(contents_path@) =~= seq![
        "contents"@,
        "twoColumnWatchNextResults"@,
        "results"@,
        "results"@,
        "contents"@,
    ]);
    let rs: &[Json] = match initial.get_path(&contents_path) {
        Some(v) => match v.as_array() {
            Some(a) => a.as_slice(),
            None => &[],
        },
        None => &[],
    };
    let po: [&str; 3] = ["videoSecondaryInfoRenderer", "owner", "videoOwnerRenderer"];
    assert(path_view(po@) =~= seq!["videoSecondaryInfoRenderer"@, "owner"@, "videoOwnerRenderer"@]);
    let mut k: usize = 0;
    while k < rs.len() && !owner_present(&rs[k], &po)
        invariant
            k <= rs@.len(),
            path_view(po@) == seq!["videoSecondaryInfoRenderer"@, "owner"@, "videoOwnerRenderer"@],
            first_owner(rs@, 0) == first_owner(rs@, k as int),
        decreases rs@.len() - k,
    {
        k = k + 1;
    }
    let owner: Option<&Json> = if k < rs.len() {
        rs[k].get_path(&po)
    } else {
        None
    };
    let ghost owner_v = match owner {
        Some(j) => Some(*j),
        None => None,
    };
    assert(owner_v == owner_of(*initial));
    let pb: [&str; 3] = ["navigationEndpoint", "browseEndpoint", "browseId"];
    assert(path_view(pb@) =~= seq!["navigationEndpoint"@, "browseEndpoint"@, "browseId"@]);
    let channel_id = text_or_empty_exec(opt_path(owner, &pb));
    let pm: [&str; 2] = ["microformat", "playerMicroformatRenderer"];
    assert(path_view(pm@) =~= seq!["microformat"@, "playerMicroformatRenderer"@]);
    let md = player.get_path(&pm);
    let (is_obj, has_md) = match md {
        Some(Json::Object(es)) => (true, es.len() > 0),
        _ => (false, false),
    };
    let pc: [&str; 2] = ["videoDetails", "channelId"];
    assert(path_view(pc@) =~= seq!["videoDetails"@, "channelId"@]);
    let vd_channel = text_or_empty_exec(player.get_path(&pc));
    let fallback = if channel_id.as_str().unicode_len() > 0 {
        channel_id
    } else {
        vd_channel
    };
    let pid: [&str; 1] = ["channelId"];
    assert(path_view(pid@) =~= seq!["channelId"@]);
    let id = match opt_path(md, &pid) {
        Some(c) if is_obj => match c.as_str() {
            Some(s) => s.clone(),
            None => fallback,
        },
        _ => fallback,
    };
    let pu: [&str; 1] = ["ownerProfileUrl"];
    assert(path_view(pu@) =~= seq!["ownerProfileUrl"@]);
    let user: Vec<char> = if has_md {
        let profile = trimmed_exec(&chars_of(text_or_empty_exec(opt_path(md, &pu)).as_str()));
        let pieces = split_exec(&profile, '/');
        proof {
            crate::storyboard::lemma_split_nonempty(profile@, '/', 0);
        }
        let last = pieces.len() - 1;
        sub_chars(&pieces[last], 0, pieces[last].len())
    } else {
        Vec::new()
    };
    let pa: [&str; 2] = ["videoDetails", "author"];
    assert(path_view(pa@) =~= seq!["videoDetails"@, "author"@]);
    let vd_author = text_or_empty_exec(player.get_path(&pa));
    let pn: [&str; 1] = ["ownerChannelName"];
    assert(path_view(pn@) =~= seq!["ownerChannelName"@]);
    let name = if has_md {
        match opt_path(md, &pn) {
            Some(n) => match n.as_str() {
                Some(s) => s.clone(),
                None => vd_author,
            },
            None => vd_author,
        }
    } else {
        vd_author
    };
    let pe: [&str; 1] = ["externalChannelId"];
    assert(path_view(pe@) =~= seq!["externalChannelId"@]);
    let ext = trimmed_exec(&chars_of(text_or_empty_exec(opt_path(md, &pe)).as_str()));
    let external_channel_url = if has_md && ext.len() > 0 {
        joined("https://www.youtube.com/channel/", &ext)
    } else {
        String::new()
    };
    let user_url = if trimmed_exec(&user).len() > 0 {
        joined("https://www.youtube.com/", &user)
    } else {
        String::new()
    };
    let channel_url = joined("https://www.youtube.com/channel/", &chars_of(id.as_str()));
    let pt: [&str; 2] = ["thumbnail", "thumbnails"];
    assert(path_view(pt@) =~= seq!["thumbnail"@, "thumbnails"@]);
    let thumbs: &[Json] = match opt_path(owner, &pt) {
        Some(v) => match v.as_array() {
            Some(a) => a.as_slice(),
            None => &[],
        },
        None => &[],
    };
    let thumbnails = thumbnails_of(thumbs);
    let pbd: [&str; 1] = ["badges"];
    assert(path_view(pbd@) =~= seq!["badges"@]);
    let badges: &[Json] = match opt_path(owner, &pbd) {
        Some(v) => match v.as_array() {
            Some(a) => a.as_slice(),
            None => &[],
        },
        None => &[],
    };
    let verified = any_verified(badges);
    let ps: [&str; 1] = ["subscriberCountText"];
    assert(path_view(ps@) =~= seq!["subscriberCountText"@]);
    let subscriber_count = match crate::extras::text_opt(opt_path(owner, &ps)) {
        Some(s) => parse_abbreviated_number(s.as_str()),
        None => parse_abbreviated_number("0"),
    };
    let r = Author {
        id,
        name,
        user: string_of(user.as_slice()),
        channel_url,
        external_channel_url,
        user_url,
        thumbnails,
        verified,
        subscriber_count,
    };
    assert(r.id@ == spec.id);
    assert(r.name@ == spec.name);
    assert(r.user@ == spec.user);
    assert(r.channel_url@ == spec.channel_url);
    assert(r.external_channel_url@ == spec.external_channel_url);
    assert(r.user_url@ == spec.user_url);
    assert(r.thumbnails@.map_values(|x: Thumbnail| (x.width, x.height, x.url@)) == spec.thumbnails);
    assert(r.verified == spec.verified);
    assert(r.subscriber_count == spec.subscriber_count);
    r
}

} // verus!
