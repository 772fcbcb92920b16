use vstd::prelude::*;
use crate::catalog::{url_with_pair, append_pair};
use crate::json::{Json, at_path, str_of, path_view};
use crate::numbers::{is_number, digits_value, parse_number};
use crate::text::{occurs_at, chars_of, string_of, occurs_at_exec, sub_chars};

verus! {

/// One storyboard of a video: a grid of preview images.
#[derive(Debug)]
pub struct StoryBoard {
    pub template_url: String,
    pub thumbnail_width: i32,
    pub thumbnail_height: i32,
    pub thumbnail_count: i32,
    pub interval: i32,
    pub columns: i32,
    pub rows: i32,
    pub storyboard_count: i32,
}

/// What a storyboard holds, as plain values.
pub struct StoryBoardView {
    pub template_url: Seq<char>,
    pub thumbnail_width: i32,
    pub thumbnail_height: i32,
    pub thumbnail_count: i32,
    pub interval: i32,
    pub columns: i32,
    pub rows: i32,
    pub storyboard_count: i32,
}

impl View for StoryBoard {
    type V = StoryBoardView;

    open spec fn view(&self) -> StoryBoardView {
        StoryBoardView {
            template_url: self.template_url@,
            thumbnail_width: self.thumbnail_width,
            thumbnail_height: self.thumbnail_height,
            thumbnail_count: self.thumbnail_count,
            interval: self.interval,
            columns: self.columns,
            rows: self.rows,
            storyboard_count: self.storyboard_count,
        }
    }
}

/// The address that a text names once parsed and written back, or `None` when it
/// does not parse.
pub uninterp spec fn parsed_url(text: Seq<char>) -> Option<Seq<char>>;

/// Relies on `url::Url::parse` and its `Display`: the parsed address, written back.
#[verifier::external_body]
fn normalize_url(text: &str) -> (r: Option<String>)
    ensures
        match r {
            Some(s) => parsed_url(text@) == Some(s@),
            None => parsed_url(text@) is None,
        },
{
    url::Url::parse(text).ok().map(|u| u.to_string())
}

/// The decimal digit for `d`, which is below ten.
pub open spec fn digit_char(d: nat) -> char {
    (('0' as u32) + d) as char
}

/// The decimal numeral of `n`.
pub open spec fn decimal(n: nat) -> Seq<char>
    decreases n,
{
    if n < 10 {
        seq![digit_char(n)]
    } else {
        decimal(n / 10).push(digit_char(n % 10))
    }
}

fn digit_char_exec(d: u64) -> (r: char)
    requires
        d < 10,
    ensures
        r == digit_char(d as nat),
{
    match d {
        0 => '0',
        1 => '1',
        2 => '2',
        3 => '3',
        4 => '4',
        5 => '5',
        6 => '6',
        7 => '7',
        8 => '8',
        _ => '9',
    }
}

fn decimal_chars(n: u64) -> (r: Vec<char>)
    ensures
        r@ == decimal(n as nat),
    decreases n,
{
    if n < 10 {
        let mut v: Vec<char> = Vec::new();
        v.push(digit_char_exec(n));
        assert(v@ =~= seq![digit_char(n as nat)]);
        v
    } else {
        let mut v = decimal_chars(n / 10);
        v.push(digit_char_exec(n % 10));
        v
    }
}

/// The decimal numeral of `n`.
fn decimal_string(n: usize) -> (r: String)
    ensures
        r@ == decimal(n as nat),
{
    let v = decimal_chars(n as u64);
    string_of(v.as_slice())
}

/// The pieces of `s` between the occurrences of `sep`, from index `p` on.
pub open spec fn split_from(s: Seq<char>, sep: char, p: int) -> Seq<Seq<char>>
    decreases s.len() + 1 - p,
{
    if p < 0 || p > s.len() {
        Seq::empty()
    } else {
        match first_char(s, sep, p) {
            Some(e) => if e < p || e >= s.len() {
                Seq::empty()
            } else {
                seq![s.subrange(p, e)] + split_from(s, sep, e + 1)
            },
            None => seq![s.subrange(p, s.len() as int)],
        }
    }
}

/// The first index at or after `p` that holds `c`.
pub open spec fn first_char(s: Seq<char>, c: char, p: int) -> Option<int>
    decreases s.len() - p,
{
    if p < 0 || p >= s.len() {
        None
    } else if s[p] == c {
        Some(p)
    } else {
        first_char(s, c, p + 1)
    }
}

/// `s` with every occurrence of the non-empty `pat`, from index `p` on, replaced by `rep`.
pub open spec fn replace_from(s: Seq<char>, pat: Seq<char>, rep: Seq<char>, p: int) -> Seq<char>
    decreases s.len() - p,
{
    if p < 0 || p >= s.len() {
        Seq::empty()
    } else if pat.len() > 0 && occurs_at(s, p, pat) {
        rep + replace_from(s, pat, rep, p + pat.len())
    } else {
        seq![s[p]] + replace_from(s, pat, rep, p + 1)
    }
}

/// The `k`th `#`-field of a storyboard part, `"0"` when there is none.
pub open spec fn part_field(fields: Seq<Seq<char>>, k: int) -> Seq<char> {
    if 0 <= k < fields.len() {
        fields[k]
    } else {
        "0"@
    }
}

/// The number a field writes, 0 when it is not decimal digits or does not fit an `i32`.
pub open spec fn field_number(t: Seq<char>) -> i32 {
    if is_number(t) && digits_value(t) <= i32::MAX {
        digits_value(t) as i32
    } else {
        0
    }
}

/// How many sheets the thumbnails fill: their count over a sheet's cells, 0 when a
/// sheet has none.
pub open spec fn sheet_count(count: i32, columns: i32, rows: i32) -> i32 {
    let cells = columns as int * rows as int;
    if cells == 0 {
        0
    } else {
        (count as int / cells) as i32
    }
}

/// The base address after the `sigh` values of the first `n` parts are appended in turn.
pub open spec fn signed_url(base: Seq<char>, parts: Seq<Seq<char>>, n: int) -> Seq<char>
    decreases n,
{
    if n <= 0 || n > parts.len() {
        base
    } else {
        let prev = signed_url(base, parts, n - 1);
        match url_with_pair(prev, "sigh"@, part_field(split_from(parts[n - 1], '#', 0), 7)) {
            Some(u) => u,
            None => prev,
        }
    }
}

/// The storyboard that part `i` of the specification describes.
pub open spec fn storyboard_view(base: Seq<char>, parts: Seq<Seq<char>>, i: int) -> StoryBoardView {
    let f = split_from(parts[i], '#', 0);
    let count = field_number(part_field(f, 2));
    let columns = field_number(part_field(f, 3));
    let rows = field_number(part_field(f, 4));
    let u = signed_url(base, parts, i + 1);
    StoryBoardView {
        template_url: replace_from(
            replace_from(u, "$L"@, decimal(i as nat), 0),
            "$N"@,
            part_field(f, 6),
            0,
        ),
        thumbnail_width: field_number(part_field(f, 0)),
        thumbnail_height: field_number(part_field(f, 1)),
        thumbnail_count: count,
        interval: field_number(part_field(f, 5)),
        columns,
        rows,
        storyboard_count: sheet_count(count, columns, rows),
    }
}

/// The base address of a storyboard specification: its first part parsed, else
/// `https://i.ytimg.com/`.
pub open spec fn storyboard_base(first: Seq<char>) -> Seq<char> {
    match parsed_url(first) {
        Some(u) => u,
        None => "https://i.ytimg.com/"@,
    }
}

/// The storyboards that a player response specifies in
/// `storyboards.playerStoryboardSpecRenderer.spec`: a base address, then one
/// `#`-separated part per storyboard, all separated by `|`.
pub open spec fn storyboards_of(info: Json) -> Seq<StoryBoardView> {
    match str_of(
        at_path(info, seq!["storyboards"@, "playerStoryboardSpecRenderer"@, "spec"@]),
    ) {
        Some(spec) => {
            let all = split_from(spec, '|', 0);
            let parts = all.drop_first();
            Seq::new(parts.len(), |i: int| storyboard_view(storyboard_base(all[0]), parts, i))
        },
        None => Seq::empty(),
    }
}

pub(crate) proof fn lemma_split_nonempty(s: Seq<char>, sep: char, p: int)
    requires
        0 <= p <= s.len(),
    ensures
        split_from(s, sep, p).len() >= 1,
{
    lemma_first_char_bounds(s, sep, p);
}

proof fn lemma_first_char_bounds(s: Seq<char>, c: char, p: int)
    ensures
        first_char(s, c, p) matches Some(e) ==> p <= e < s.len(),
    decreases s.len() - p,
{
    if 0 <= p < s.len() && s[p] != c {
        lemma_first_char_bounds(s, c, p + 1);
    }
}

pub(crate) fn split_exec(s: &Vec<char>, sep: char) -> (r: Vec<Vec<char>>)
    ensures
        r@.map_values(|v: Vec<char>| v@) == split_from(s@, sep, 0),
{
    let _n = s.len();
    let mut out: Vec<Vec<char>> = Vec::new();
    let mut p: usize = 0;
    let mut k: usize = 0;
    while k < s.len()
        invariant
            p <= k <= s@.len(),
            forall|m: int| p <= m < k ==> s@[m] != sep,
            split_from(s@, sep, 0) == out@.map_values(|v: Vec<char>| v@) + split_from(
                s@,
                sep,
                p as int,
            ),
        decreases s@.len() - k,
    {
        proof {
            lemma_first_char_skip(s@, sep, p as int, k as int);
        }
        if s[k] == sep {
            let piece = sub_chars(s, p, k);
            let ghost before = out@;
            out.push(piece);
            assert(out@.map_values(|v: Vec<char>| v@) =~= before.map_values(|v: Vec<char>| v@).push(
                piece@,
            ));
            assert(split_from(s@, sep, p as int) == seq![s@.subrange(p as int, k as int)]
                + split_from(s@, sep, k + 1));
            assert(before.map_values(|v: Vec<char>| v@) + (seq![piece@] + split_from(
                s@,
                sep,
                k + 1,
            )) =~= out@.map_values(|v: Vec<char>| v@) + split_from(s@, sep, k + 1));
            p = k + 1;
        }
        k = k + 1;
    }
    proof {
        lemma_first_char_skip(s@, sep, p as int, k as int);
    }
    let piece = sub_chars(s, p, s.len());
    let ghost before = out@;
    out.push(piece);
    assert(out@.map_values(|v: Vec<char>| v@) =~= before.map_values(|v: Vec<char>| v@).push(
        piece@,
    ));
    assert(before.map_values(|v: Vec<char>| v@) + seq![piece@] =~= out@.map_values(
        |v: Vec<char>| v@,
    ));
    out
}

proof fn lemma_first_char_skip(s: Seq<char>, c: char, p: int, k: int)
    requires
        0 <= p <= k <= s.len(),
        forall|m: int| p <= m < k ==> s[m] != c,
    ensures
        first_char(s, c, p) == first_char(s, c, k),
    decreases k - p,
{
    if p < k {
        lemma_first_char_skip(s, c, p + 1, k);
    }
}

fn replace_exec(s: &Vec<char>, pat: &Vec<char>, rep: &Vec<char>) -> (r: Vec<char>)
    ensures
        r@ == replace_from(s@, pat@, rep@, 0),
{
    let _n = s.len();
    let mut out: Vec<char> = Vec::new();
    let mut p: usize = 0;
    while p < s.len()
        invariant
            p <= s@.len(),
            s@.len() <= usize::MAX,
            replace_from(s@, pat@, rep@, 0) == out@ + replace_from(s@, pat@, rep@, p as int),
        decreases s@.len() - p,
    {
        let ghost before = out@;
        if pat.len() > 0 && occurs_at_exec(s, p, pat) {
            let mut i: usize = 0;
            while i < rep.len()
                invariant
                    i <= rep@.len(),
                    out@ == before + rep@.subrange(0, i as int),
                decreases rep@.len() - i,
            {
                out.push(rep[i]);
                i = i + 1;
                assert(out@ =~= before + rep@.subrange(0, i as int));
            }
            assert(rep@.subrange(0, i as int) =~= rep@);
            assert(before + (rep@ + replace_from(s@, pat@, rep@, p + pat@.len())) =~= out@
                + replace_from(s@, pat@, rep@, p + pat@.len()));
            p = p + pat.len();
        } else {
            out.push(s[p]);
            assert(before + (seq![s@[p as int]] + replace_from(s@, pat@, rep@, p + 1)) =~= out@
                + replace_from(s@, pat@, rep@, p + 1));
            p = p + 1;
        }
    }
    assert(out@ + Seq::<char>::empty() =~= out@);
    out
}

fn part_field_exec(fields: &Vec<Vec<char>>, k: usize) -> (r: Vec<char>)
    ensures
        r@ == part_field(fields@.map_values(|v: Vec<char>| v@), k as int),
{
    proof {
        reveal_strlit("0");
    }
    if k < fields.len() {
        sub_chars(&fields[k], 0, fields[k].len())
    } else {
        chars_of("0")
    }
}

fn field_number_exec(t: &Vec<char>) -> (r: i32)
    ensures
        r == field_number(t@),
{
    match parse_number(t) {
        Some(n) => if n <= 2147483647 {
            n as i32
        } else {
            0
        },
        None => 0,
    }
}

fn sheet_count_exec(count: i32, columns: i32, rows: i32) -> (r: i32)
    requires
        count >= 0,
        columns >= 0,
        rows >= 0,
    ensures
        r == sheet_count(count, columns, rows),
{
    assert((columns as int) * (rows as int) <= 4611686014132420609) by (nonlinear_arith)
        requires
            0 <= columns <= 2147483647,
            0 <= rows <= 2147483647,
    ;
    assert((columns as int) * (rows as int) >= 0) by (nonlinear_arith)
        requires
            0 <= columns,
            0 <= rows,
    ;
    let cells: i64 = (columns as i64) * (rows as i64);
    if cells == 0 {
        0
    } else {
        let q = (count as i64) / cells;
        assert(q <= count) by (nonlinear_arith)
            requires
                cells >= 1,
                count >= 0,
                q == count as int / cells as int,
        ;
        q as i32
    }
}

/// The storyboards that a player response specifies in
/// `storyboards.playerStoryboardSpecRenderer.spec`, in order.
pub fn get_storyboards(info: &Json) -> (r: Option<Vec<StoryBoard>>)
    ensures
        r matches Some(v) && v@.map_values(|b: StoryBoard| b@) == storyboards_of(*info),
{
    Some(storyboard_list(info))
}

fn storyboard_list(info: &Json) -> (r: Vec<StoryBoard>)
    ensures
        r@.map_values(|b: StoryBoard| b@) == storyboards_of(*info),
{
    let path: [&str; 3] = ["storyboards", "playerStoryboardSpecRenderer", "spec"];
    assert(path_view(path@) =~= seq!["storyboards"@, "playerStoryboardSpecRenderer"@, "spec"@]);
    let mut out: Vec<StoryBoard> = Vec::new();
    let spec = match info.get_path(&path) {
        Some(v) => match v.as_str() {
            Some(s) => s,
            None => {
                assert(out@.map_values(|b: StoryBoard| b@) =~= Seq::<StoryBoardView>::empty());
                return out;
            },
        },
        None => {
            assert(out@.map_values(|b: StoryBoard| b@) =~= Seq::<StoryBoardView>::empty());
            return out;
        },
    };
    let all = split_exec(&chars_of(spec.as_str()), '|');
    let ghost allv = all@.map_values(|v: Vec<char>| v@);
    let ghost parts = allv.drop_first();
    proof {
        lemma_split_nonempty(spec@, '|', 0);
    }
    let first = string_of(all[0].as_slice());
    let base = match normalize_url(first.as_str()) {
        Some(u) => u,
        None => String::from_str("https://i.ytimg.com/"),
    };
    let ghost want = Seq::new(
        parts.len(),
        |i: int| storyboard_view(storyboard_base(allv[0]), parts, i),
    );
    let mut url = base;
    let mut j: usize = 0;
    assert(all@.len() == allv.len());
    while j < all.len() - 1
        invariant
            allv == all@.map_values(|v: Vec<char>| v@),
            all@.len() >= 1,
            allv.len() >= 1,
            parts == allv.drop_first(),
            j <= parts.len(),
            url@ == signed_url(storyboard_base(allv[0]), parts, j as int),
            want == Seq::new(
                parts.len(),
                |i: int| storyboard_view(storyboard_base(allv[0]), parts, i),
            ),
            out@.len() == j,
            out@.map_values(|b: StoryBoard| b@) == want.subrange(0, j as int),
        decreases parts.len() - j,
    {
        let f = split_exec(&all[j + 1], '#');
        assert(parts[j as int] == all@[j + 1]@);
        let sigh = string_of(part_field_exec(&f, 7).as_slice());
        url = match append_pair(url.as_str(), "sigh", sigh.as_str()) {
            Some(u) => u,
            None => url,
        };
        let count = field_number_exec(&part_field_exec(&f, 2));
        let columns = field_number_exec(&part_field_exec(&f, 3));
        let rows = field_number_exec(&part_field_exec(&f, 4));
        let index = decimal_string(j);
        let step = replace_exec(&chars_of(url.as_str()), &chars_of("$L"), &chars_of(index.as_str()));
        let name = part_field_exec(&f, 6);
        let template = replace_exec(&step, &chars_of("$N"), &name);
        let board = StoryBoard {
            template_url: string_of(template.as_slice()),
            thumbnail_width: field_number_exec(&part_field_exec(&f, 0)),
            thumbnail_height: field_number_exec(&part_field_exec(&f, 1)),
            thumbnail_count: count,
            interval: field_number_exec(&part_field_exec(&f, 5)),
            columns,
            rows,
            storyboard_count: sheet_count_exec(count, columns, rows),
        };
        assert(board@ == storyboard_view(storyboard_base(allv[0]), parts, j as int));
        let ghost before = out@;
        out.push(board);
        assert forall|m: int| 0 <= m < j implies #[trigger] out@[m] == before[m] by {}
        assert forall|m: int| 0 <= m < j implies out@[m]@ == want[m] by {
            assert(before.map_values(|b: StoryBoard| b@)[m] == want.subrange(0, j as int)[m]);
        }
        assert(out@.map_values(|b: StoryBoard| b@) =~= want.subrange(0, j + 1));
        j = j + 1;
    }
    assert(want.subrange(0, j as int) =~= want);
    out
}

} // verus!
