use vstd::prelude::*;

verus! {

/// The container a format's bytes come in.
#[derive(Clone, Copy, Debug, PartialEq, Eq, Structural)]
pub enum Container {
    Mp4,
    Webm,
    ThreeGp,
    Flv,
    Ts,
    Other,
}

/// One playable representation of a video.
#[derive(Debug)]
pub struct VideoFormat {
    pub itag: u64,
    pub mime_type: String,
    pub container: Container,
    pub bitrate: u64,
    pub audio_bitrate: Option<u64>,
    pub height: Option<u64>,
    pub quality_label: Option<String>,
    pub content_length: Option<u64>,
    pub url: String,
    pub has_video: bool,
    pub has_audio: bool,
    pub is_live: bool,
    pub is_hls: bool,
    pub is_dash_mpd: bool,
}

/// What a format holds, as plain values.
pub struct VideoFormatView {
    pub itag: u64,
    pub mime_type: Seq<char>,
    pub container: Container,
    pub bitrate: u64,
    pub audio_bitrate: Option<u64>,
    pub height: Option<u64>,
    pub quality_label: Option<Seq<char>>,
    pub content_length: Option<u64>,
    pub url: Seq<char>,
    pub has_video: bool,
    pub has_audio: bool,
    pub is_live: bool,
    pub is_hls: bool,
    pub is_dash_mpd: bool,
}

impl View for VideoFormat {
    type V = VideoFormatView;

    open spec fn view(&self) -> VideoFormatView {
        VideoFormatView {
            itag: self.itag,
            mime_type: self.mime_type@,
            container: self.container,
            bitrate: self.bitrate,
            audio_bitrate: self.audio_bitrate,
            height: self.height,
            quality_label: match self.quality_label {
                Some(q) => Some(q@),
                None => None,
            },
            content_length: self.content_length,
            url: self.url@,
            has_video: self.has_video,
            has_audio: self.has_audio,
            is_live: self.is_live,
            is_hls: self.is_hls,
            is_dash_mpd: self.is_dash_mpd,
        }
    }
}

impl VideoFormat {
    /// A copy of this format.
    pub fn duplicate(&self) -> (r: VideoFormat)
        ensures
            r == *self,
    {
        let quality_label = match &self.quality_label {
            Some(q) => Some(q.clone()),
            None => None,
        };
        VideoFormat {
            itag: self.itag,
            mime_type: self.mime_type.clone(),
            container: self.container,
            bitrate: self.bitrate,
            audio_bitrate: self.audio_bitrate,
            height: self.height,
            quality_label,
            content_length: self.content_length,
            url: self.url.clone(),
            has_video: self.has_video,
            has_audio: self.has_audio,
            is_live: self.is_live,
            is_hls: self.is_hls,
            is_dash_mpd: self.is_dash_mpd,
        }
    }
}

/// 1 for a format that carries both audio and video, else 0.
pub open spec fn av_rank(f: VideoFormat) -> int {
    if f.has_video && f.has_audio {
        1
    } else {
        0
    }
}

/// How much a container is preferred; larger comes first.
pub open spec fn container_rank(c: Container) -> int {
    match c {
        Container::Mp4 => 4,
        Container::Webm => 3,
        Container::Ts => 2,
        Container::ThreeGp => 1,
        _ => 0,
    }
}

/// The picture height of a format, 0 when it has none.
pub open spec fn height_rank(f: VideoFormat) -> int {
    match f.height {
        Some(h) => h as int,
        None => 0,
    }
}

/// `a` comes strictly before `b` in the sort order: audio and video together first,
/// then the preferred container, then the larger height, then the larger bitrate.
pub open spec fn ranks_above(a: VideoFormat, b: VideoFormat) -> bool {
    av_rank(a) > av_rank(b) || (av_rank(a) == av_rank(b) && (container_rank(a.container)
        > container_rank(b.container) || (container_rank(a.container) == container_rank(
        b.container,
    ) && (height_rank(a) > height_rank(b) || (height_rank(a) == height_rank(b) && a.bitrate
        > b.bitrate)))))
}

fn container_rank_exec(c: Container) -> (r: u8)
    ensures
        r as int == container_rank(c),
{
    match c {
        Container::Mp4 => 4,
        Container::Webm => 3,
        Container::Ts => 2,
        Container::ThreeGp => 1,
        _ => 0,
    }
}

/// Whether `a` comes strictly before `b` in the sort order.
pub fn format_ranks_above(a: &VideoFormat, b: &VideoFormat) -> (r: bool)
    ensures
        r == ranks_above(*a, *b),
{
    let av_a: u8 = if a.has_video && a.has_audio {
        1
    } else {
        0
    };
    let av_b: u8 = if b.has_video && b.has_audio {
        1
    } else {
        0
    };
    let ca = container_rank_exec(a.container);
    let cb = container_rank_exec(b.container);
    let ha: u64 = match a.height {
        Some(h) => h,
        None => 0,
    };
    let hb: u64 = match b.height {
        Some(h) => h,
        None => 0,
    };
    av_a > av_b || (av_a == av_b && (ca > cb || (ca == cb && (ha > hb || (ha == hb && a.bitrate
        > b.bitrate)))))
}

/// Where `x` goes in `s`: after the last element that it does not rank above.
pub open spec fn insert_pos(s: Seq<VideoFormat>, x: VideoFormat) -> int
    decreases s.len(),
{
    if s.len() == 0 {
        0
    } else if ranks_above(x, s.last()) {
        insert_pos(s.drop_last(), x)
    } else {
        s.len() as int
    }
}

/// The formats in sort order; formats that rank alike keep their order.
pub open spec fn sorted_formats(s: Seq<VideoFormat>) -> Seq<VideoFormat>
    decreases s.len(),
{
    if s.len() == 0 {
        s
    } else {
        let t = sorted_formats(s.drop_last());
        t.insert(insert_pos(t, s.last()), s.last())
    }
}

/// No element ranks above one that comes before it.
pub open spec fn is_sorted(s: Seq<VideoFormat>) -> bool {
    forall|i: int, j: int| 0 <= i < j < s.len() ==> !ranks_above(#[trigger] s[j], #[trigger] s[i])
}

proof fn lemma_insert_pos_bounds(s: Seq<VideoFormat>, x: VideoFormat)
    ensures
        0 <= insert_pos(s, x) <= s.len(),
        forall|k: int| insert_pos(s, x) <= k < s.len() ==> ranks_above(x, #[trigger] s[k]),
        insert_pos(s, x) > 0 ==> !ranks_above(x, s[insert_pos(s, x) - 1]),
    decreases s.len(),
{
    if s.len() > 0 && ranks_above(x, s.last()) {
        lemma_insert_pos_bounds(s.drop_last(), x);
        assert forall|k: int| insert_pos(s, x) <= k < s.len() implies ranks_above(
            x,
            #[trigger] s[k],
        ) by {
            if k < s.len() - 1 {
                assert(s.drop_last()[k] == s[k]);
            }
        }
    }
}

/// Sorts the formats: audio and video together first, then by container, height
/// and bitrate, largest first; formats that rank alike keep their order.
pub fn sort_formats(formats: &mut Vec<VideoFormat>)
    ensures
        final(formats)@ == sorted_formats(old(formats)@),
{
    let ghost orig = old(formats)@;
    let mut rest: Vec<VideoFormat> = Vec::new();
    core::mem::swap(formats, &mut rest);
    let mut out: Vec<VideoFormat> = Vec::new();
    let ghost mut k: int = 0;
    assert(orig.subrange(0, 0) =~= Seq::<VideoFormat>::empty());
    assert(orig.subrange(0, orig.len() as int) =~= orig);
    while rest.len() > 0
        invariant
            0 <= k <= orig.len(),
            rest@ == orig.subrange(k, orig.len() as int),
            out@ == sorted_formats(orig.subrange(0, k)),
        decreases rest@.len(),
    {
        let x = rest.remove(0);
        let ghost before = out@;
        let mut j = out.len();
        assert(out@.subrange(0, j as int) =~= out@);
        while j > 0 && format_ranks_above(&x, &out[j - 1])
            invariant
                j <= out@.len(),
                out@ == before,
                insert_pos(before, x) == insert_pos(before.subrange(0, j as int), x),
            decreases j,
        {
            assert(before.subrange(0, j as int).drop_last() =~= before.subrange(0, j - 1));
            j = j - 1;
        }
        out.insert(j, x);
        proof {
            assert(orig.subrange(0, k + 1).drop_last() =~= orig.subrange(0, k));
            k = k + 1;
            assert(rest@ =~= orig.subrange(k, orig.len() as int));
        }
    }
    assert(orig.subrange(0, k) =~= orig);
    core::mem::swap(formats, &mut out);
}

/// The sort leaves its result in order.
pub proof fn lemma_sorted_is_sorted(s: Seq<VideoFormat>)
    ensures
        is_sorted(sorted_formats(s)),
        sorted_formats(s).len() == s.len(),
    decreases s.len(),
{
    if s.len() > 0 {
        let t = sorted_formats(s.drop_last());
        let x = s.last();
        lemma_sorted_is_sorted(s.drop_last());
        lemma_insert_pos_bounds(t, x);
        let p = insert_pos(t, x);
        let u = t.insert(p, x);
        assert forall|i: int, j: int| 0 <= i < j < u.len() implies !ranks_above(
            #[trigger] u[j],
            #[trigger] u[i],
        ) by {
            if i < p && j == p {
                assert(!ranks_above(x, t[p - 1]));
                if i < p - 1 {
                    assert(!ranks_above(t[p - 1], t[i]));
                }
            } else if i == p && j > p {
                assert(ranks_above(x, t[j - 1]));
            } else if i < p && j > p {
                assert(!ranks_above(t[j - 1], t[i]));
            } else if i > p {
                assert(!ranks_above(t[j - 1], t[i - 1]));
            } else {
                assert(!ranks_above(t[j], t[i]));
            }
        }
    }
}

/// Sorting what is already in order changes nothing.
pub proof fn lemma_sorted_fixed(s: Seq<VideoFormat>)
    requires
        is_sorted(s),
    ensures
        sorted_formats(s) == s,
    decreases s.len(),
{
    if s.len() > 0 {
        let d = s.drop_last();
        assert(is_sorted(d)) by {
            assert forall|i: int, j: int| 0 <= i < j < d.len() implies !ranks_above(
                #[trigger] d[j],
                #[trigger] d[i],
            ) by {
                assert(d[j] == s[j] && d[i] == s[i]);
            }
        }
        lemma_sorted_fixed(d);
        if d.len() > 0 {
            assert(!ranks_above(s[s.len() - 1], s[s.len() - 2]));
            assert(d.last() == s[s.len() - 2]);
        }
        assert(insert_pos(d, s.last()) == d.len());
        assert(d.insert(d.len() as int, s.last()) =~= s);
    }
}

/// Sorting twice gives what sorting once gives.
pub proof fn lemma_sort_idempotent(s: Seq<VideoFormat>)
    ensures
        sorted_formats(sorted_formats(s)) == sorted_formats(s),
{
    lemma_sorted_is_sorted(s);
    lemma_sorted_fixed(sorted_formats(s));
}

/// After sorting, a format with audio and video never follows a single-track format
/// of the same container, height and bitrate.
pub proof fn lemma_av_before_single(s: Seq<VideoFormat>, i: int, j: int)
    requires
        0 <= i < j < s.len(),
        sorted_formats(s)[j].has_video && sorted_formats(s)[j].has_audio,
        !(sorted_formats(s)[i].has_video && sorted_formats(s)[i].has_audio),
    ensures
        container_rank(sorted_formats(s)[i].container) != container_rank(
            sorted_formats(s)[j].container,
        ) || height_rank(sorted_formats(s)[i]) != height_rank(sorted_formats(s)[j])
            || sorted_formats(s)[i].bitrate != sorted_formats(s)[j].bitrate,
{
    lemma_sorted_is_sorted(s);
    let t = sorted_formats(s);
    assert(!ranks_above(t[j], t[i]));
}

proof fn lemma_insert_contains(t: Seq<VideoFormat>, p: int, y: VideoFormat, x: VideoFormat)
    requires
        0 <= p <= t.len(),
    ensures
        t.insert(p, y).contains(x) <==> (t.contains(x) || x == y),
{
    let u = t.insert(p, y);
    if t.contains(x) {
        let i = choose|i: int| 0 <= i < t.len() && t[i] == x;
        if i < p {
            assert(u[i] == x);
        } else {
            assert(u[i + 1] == x);
        }
    }
    if x == y {
        assert(u[p] == x);
    }
    if u.contains(x) {
        let i = choose|i: int| 0 <= i < u.len() && u[i] == x;
        if i < p {
            assert(t[i] == x);
        } else if i > p {
            assert(t[i - 1] == x);
        }
    }
}

/// Sorting keeps exactly the formats it was given.
pub proof fn lemma_sort_keeps_formats(s: Seq<VideoFormat>, x: VideoFormat)
    ensures
        sorted_formats(s).contains(x) <==> s.contains(x),
    decreases s.len(),
{
    if s.len() > 0 {
        let d = s.drop_last();
        lemma_sort_keeps_formats(d, x);
        lemma_sorted_is_sorted(d);
        lemma_insert_pos_bounds(sorted_formats(d), s.last());
        lemma_insert_contains(sorted_formats(d), insert_pos(sorted_formats(d), s.last()), s.last(), x);
        if s.contains(x) && x != s.last() {
            let i = choose|i: int| 0 <= i < s.len() && s[i] == x;
            assert(d[i] == x);
        }
        if d.contains(x) {
            let i = choose|i: int| 0 <= i < d.len() && d[i] == x;
            assert(s[i] == x);
        }
        if x == s.last() {
            assert(s[s.len() - 1] == x);
        }
    }
}

/// The full catalog, sorted, holds every format of the basic catalog, whatever formats
/// `extra` adds; when it adds none, it is the basic catalog sorted.
pub proof fn lemma_full_holds_basic(basic: Seq<VideoFormat>, extra: Seq<VideoFormat>)
    ensures
        forall|i: int|
            0 <= i < basic.len() ==> #[trigger] sorted_formats(basic + extra).contains(basic[i]),
        extra.len() == 0 ==> sorted_formats(basic + extra) == sorted_formats(basic),
{
    assert forall|i: int| 0 <= i < basic.len() implies #[trigger] sorted_formats(
        basic + extra,
    ).contains(basic[i]) by {
        assert((basic + extra)[i] == basic[i]);
        lemma_sort_keeps_formats(basic + extra, basic[i]);
    }
    if extra.len() == 0 {
        assert(basic + extra =~= basic);
    }
}

/// The sort is stable: sorting one format more places it right after every earlier
/// format that it does not rank above (those that rank alike included) and before
/// every one that it does rank above, leaving the others in their sorted order.
pub proof fn lemma_sort_stable_step(s: Seq<VideoFormat>, x: VideoFormat)
    ensures
        ({
            let t = sorted_formats(s);
            let p = insert_pos(t, x);
            &&& 0 <= p <= t.len()
            &&& sorted_formats(s.push(x)) == t.insert(p, x)
            &&& forall|k: int| 0 <= k < p ==> !ranks_above(x, #[trigger] t[k])
            &&& forall|k: int| p <= k < t.len() ==> ranks_above(x, #[trigger] t[k])
        }),
{
    let t = sorted_formats(s);
    assert(s.push(x).drop_last() =~= s);
    lemma_sorted_is_sorted(s);
    lemma_insert_pos_bounds(t, x);
    let p = insert_pos(t, x);
    assert forall|k: int| 0 <= k < p implies !ranks_above(x, #[trigger] t[k]) by {
        assert(!ranks_above(x, t[p - 1]));
        if k < p - 1 {
            assert(!ranks_above(t[p - 1], t[k]));
        }
    }
}

/// Sorting keeps exactly the formats it was given, each as often as it was given.
pub proof fn lemma_sort_same_multiset(s: Seq<VideoFormat>)
    ensures
        sorted_formats(s).to_multiset() == s.to_multiset(),
    decreases s.len(),
{
    if s.len() > 0 {
        let d = s.drop_last();
        lemma_sort_same_multiset(d);
        lemma_sorted_is_sorted(d);
        lemma_insert_pos_bounds(sorted_formats(d), s.last());
        vstd::seq_lib::to_multiset_insert(
            sorted_formats(d),
            insert_pos(sorted_formats(d), s.last()),
            s.last(),
        );
        vstd::seq_lib::to_multiset_build(d, s.last());
        assert(d.push(s.last()) =~= s);
    }
}

/// The full catalog, sorted, holds the basic catalog counted with multiplicity,
/// whatever formats `extra` adds; with nothing added it holds the same formats.
pub proof fn lemma_full_holds_basic_multiset(basic: Seq<VideoFormat>, extra: Seq<VideoFormat>)
    ensures
        basic.to_multiset().subset_of(sorted_formats(basic + extra).to_multiset()),
        sorted_formats(basic + extra).to_multiset() == basic.to_multiset().add(extra.to_multiset()),
        extra.len() == 0 ==> sorted_formats(basic + extra).to_multiset() == basic.to_multiset(),
{
    broadcast use vstd::multiset::group_multiset_axioms;

    lemma_sort_same_multiset(basic + extra);
    vstd::seq_lib::lemma_multiset_commutative(basic, extra);
    if extra.len() == 0 {
        assert(basic + extra =~= basic);
    }
    assert(basic.to_multiset().subset_of(basic.to_multiset().add(extra.to_multiset())));
}

/// Neither format ranks above the other: they share their sort key.
pub open spec fn same_rank(a: VideoFormat, b: VideoFormat) -> bool {
    !ranks_above(a, b) && !ranks_above(b, a)
}

/// The formats that rank alike with `x`.
pub open spec fn tied_with(x: VideoFormat) -> spec_fn(VideoFormat) -> bool {
    |z: VideoFormat| same_rank(z, x)
}

proof fn lemma_none_tied(u: Seq<VideoFormat>, x: VideoFormat)
    requires
        forall|k: int| 0 <= k < u.len() ==> !same_rank(#[trigger] u[k], x),
    ensures
        u.filter(tied_with(x)) == Seq::<VideoFormat>::empty(),
    decreases u.len(),
{
    reveal(Seq::filter);
    if u.len() > 0 {
        let d = u.drop_last();
        assert forall|k: int| 0 <= k < d.len() implies !same_rank(#[trigger] d[k], x) by {
            assert(d[k] == u[k]);
        }
        lemma_none_tied(d, x);
        assert(!same_rank(u[u.len() - 1], x));
    }
}

/// The sort is stable: the formats that rank alike with any `x` come out in the
/// order in which they went in.
pub proof fn lemma_sort_stable(s: Seq<VideoFormat>, x: VideoFormat)
    ensures
        sorted_formats(s).filter(tied_with(x)) == s.filter(tied_with(x)),
    decreases s.len(),
{
    reveal(Seq::filter);
    if s.len() > 0 {
        let d = s.drop_last();
        let y = s.last();
        let t = sorted_formats(d);
        lemma_sort_stable(d, x);
        lemma_sorted_is_sorted(d);
        lemma_insert_pos_bounds(t, y);
        let p = insert_pos(t, y);
        let a = t.subrange(0, p);
        let b = t.subrange(p, t.len() as int);
        assert(t.insert(p, y) =~= a + seq![y] + b);
        assert(t =~= a + b);
        Seq::filter_distributes_over_add(a + seq![y], b, tied_with(x));
        Seq::filter_distributes_over_add(a, seq![y], tied_with(x));
        Seq::filter_distributes_over_add(a, b, tied_with(x));
        assert(seq![y].drop_last() =~= Seq::<VideoFormat>::empty());
        if same_rank(y, x) {
            assert forall|k: int| 0 <= k < b.len() implies !same_rank(#[trigger] b[k], x) by {
                assert(b[k] == t[p + k]);
                assert(ranks_above(y, t[p + k]));
            }
            lemma_none_tied(b, x);
            assert(a.filter(tied_with(x)) + seq![y] + Seq::<VideoFormat>::empty() =~= (
            a.filter(tied_with(x)) + Seq::<VideoFormat>::empty()).push(y));
        } else {
            assert(!(tied_with(x))(y));
            assert(seq![y].last() == y);
            assert(Seq::<VideoFormat>::empty().filter(tied_with(x)) == Seq::<VideoFormat>::empty());
            assert(seq![y].filter(tied_with(x)) == seq![y].drop_last().filter(tied_with(x)));
            assert(seq![y].filter(tied_with(x)) =~= Seq::<VideoFormat>::empty());
            assert(a.filter(tied_with(x)) + Seq::<VideoFormat>::empty() =~= a.filter(
                tied_with(x),
            ));
        }
    }
}

} // verus!
