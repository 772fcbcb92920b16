use vstd::prelude::*;
use crate::error::VideoError;
use crate::format::{Container, VideoFormat};

verus! {

/// Which tracks, container or format identifier a chosen format must have.
#[derive(Clone, Copy, Debug, PartialEq, Eq, Structural)]
pub enum VideoSearchOptions {
    /// Audio and video together.
    VideoAudio,
    /// Video, with or without audio.
    Video,
    /// Video and no audio.
    VideoOnly,
    /// Audio, with or without video.
    Audio,
    /// Audio and no video.
    AudioOnly,
    /// The given container.
    Container(Container),
    /// The given format identifier.
    Itag(u64),
    /// The given picture height, a quality tier such as 720.
    Height(u64),
}

/// Which of the matching formats is chosen, in the sort order.
#[derive(Clone, Copy, Debug, PartialEq, Eq, Structural)]
pub enum VideoQuality {
    /// The first.
    Highest,
    /// The last.
    Lowest,
}

/// Whether `f` satisfies the filter.
pub open spec fn matches_filter(f: VideoFormat, filter: VideoSearchOptions) -> bool {
    match filter {
        VideoSearchOptions::VideoAudio => f.has_video && f.has_audio,
        VideoSearchOptions::Video => f.has_video,
        VideoSearchOptions::VideoOnly => f.has_video && !f.has_audio,
        VideoSearchOptions::Audio => f.has_audio,
        VideoSearchOptions::AudioOnly => f.has_audio && !f.has_video,
        VideoSearchOptions::Container(c) => f.container == c,
        VideoSearchOptions::Itag(i) => f.itag == i,
        VideoSearchOptions::Height(h) => f.height == Some(h),
    }
}

/// The first index at or after `i` whose format satisfies the filter.
pub open spec fn first_match(s: Seq<VideoFormat>, filter: VideoSearchOptions, i: int) -> Option<
    int,
>
    decreases s.len() - i,
{
    if i < 0 || i >= s.len() {
        None
    } else if matches_filter(s[i], filter) {
        Some(i)
    } else {
        first_match(s, filter, i + 1)
    }
}

/// The last index below `end` whose format satisfies the filter.
pub open spec fn last_match(s: Seq<VideoFormat>, filter: VideoSearchOptions, end: int) -> Option<
    int,
>
    decreases end,
{
    if end <= 0 || end > s.len() {
        None
    } else if matches_filter(s[end - 1], filter) {
        Some(end - 1)
    } else {
        last_match(s, filter, end - 1)
    }
}

/// The index that the selection picks, if any format matches.
pub open spec fn chosen_index(
    s: Seq<VideoFormat>,
    filter: VideoSearchOptions,
    quality: VideoQuality,
) -> Option<int> {
    match quality {
        VideoQuality::Highest => first_match(s, filter, 0),
        VideoQuality::Lowest => last_match(s, filter, s.len() as int),
    }
}

/// The outcome of a selection: the index picked, or `FormatNotFound` when nothing
/// matches or the match has no locator.
pub open spec fn choice(
    s: Seq<VideoFormat>,
    filter: VideoSearchOptions,
    quality: VideoQuality,
) -> Result<int, VideoError> {
    match chosen_index(s, filter, quality) {
        Some(i) => if s[i].url@.len() == 0 {
            Err(VideoError::FormatNotFound)
        } else {
            Ok(i)
        },
        None => Err(VideoError::FormatNotFound),
    }
}

fn matches_filter_exec(f: &VideoFormat, filter: VideoSearchOptions) -> (r: bool)
    ensures
        r == matches_filter(*f, filter),
{
    match filter {
        VideoSearchOptions::VideoAudio => f.has_video && f.has_audio,
        VideoSearchOptions::Video => f.has_video,
        VideoSearchOptions::VideoOnly => f.has_video && !f.has_audio,
        VideoSearchOptions::Audio => f.has_audio,
        VideoSearchOptions::AudioOnly => f.has_audio && !f.has_video,
        VideoSearchOptions::Container(c) => f.container == c,
        VideoSearchOptions::Itag(i) => f.itag == i,
        VideoSearchOptions::Height(h) => f.height == Some(h),
    }
}

fn first_match_exec(formats: &Vec<VideoFormat>, filter: VideoSearchOptions) -> (r: Option<usize>)
    ensures
        match r {
            Some(k) => first_match(formats@, filter, 0) == Some(k as int) && k < formats@.len(),
            None => first_match(formats@, filter, 0) is None,
        },
{
    let mut i: usize = 0;
    while i < formats.len()
        invariant
            i <= formats@.len(),
            first_match(formats@, filter, 0) == first_match(formats@, filter, i as int),
        decreases formats@.len() - i,
    {
        if matches_filter_exec(&formats[i], filter) {
            return Some(i);
        }
        i = i + 1;
    }
    None
}

fn last_match_exec(formats: &Vec<VideoFormat>, filter: VideoSearchOptions) -> (r: Option<usize>)
    ensures
        match r {
            Some(k) => last_match(formats@, filter, formats@.len() as int) == Some(k as int) && k
                < formats@.len(),
            None => last_match(formats@, filter, formats@.len() as int) is None,
        },
{
    let mut end = formats.len();
    while end > 0
        invariant
            end <= formats@.len(),
            last_match(formats@, filter, formats@.len() as int) == last_match(
                formats@,
                filter,
                end as int,
            ),
        decreases end,
    {
        if matches_filter_exec(&formats[end - 1], filter) {
            return Some(end - 1);
        }
        end = end - 1;
    }
    None
}

/// Picks one format of `formats`, which are taken in the order given: the first
/// (`Highest`) or last (`Lowest`) that satisfies the filter. Fails with
/// `FormatNotFound` when none does or the one picked has no locator.
pub fn choose_format(
    formats: &Vec<VideoFormat>,
    filter: VideoSearchOptions,
    quality: VideoQuality,
) -> (r: Result<VideoFormat, VideoError>)
    ensures
        match choice(formats@, filter, quality) {
            Ok(i) => r == Ok::<VideoFormat, VideoError>(formats@[i]),
            Err(e) => r == Err::<VideoFormat, VideoError>(e),
        },
{
    let picked = match quality {
        VideoQuality::Highest => first_match_exec(formats, filter),
        VideoQuality::Lowest => last_match_exec(formats, filter),
    };
    match picked {
        Some(k) => {
            if formats[k].url.as_str().unicode_len() == 0 {
                Err(VideoError::FormatNotFound)
            } else {
                Ok(formats[k].duplicate())
            }
        },
        None => Err(VideoError::FormatNotFound),
    }
}

proof fn lemma_no_first_match(s: Seq<VideoFormat>, filter: VideoSearchOptions, i: int)
    requires
        forall|k: int| 0 <= k < s.len() ==> !matches_filter(#[trigger] s[k], filter),
    ensures
        first_match(s, filter, i) is None,
    decreases s.len() - i,
{
    if 0 <= i < s.len() {
        lemma_no_first_match(s, filter, i + 1);
    }
}

proof fn lemma_no_last_match(s: Seq<VideoFormat>, filter: VideoSearchOptions, end: int)
    requires
        forall|k: int| 0 <= k < s.len() ==> !matches_filter(#[trigger] s[k], filter),
    ensures
        last_match(s, filter, end) is None,
    decreases end,
{
    if 0 < end <= s.len() {
        lemma_no_last_match(s, filter, end - 1);
    }
}

/// A filter that no format satisfies gives `FormatNotFound`, whatever the quality.
pub proof fn lemma_no_match_not_found(
    s: Seq<VideoFormat>,
    filter: VideoSearchOptions,
    quality: VideoQuality,
)
    requires
        forall|k: int| 0 <= k < s.len() ==> !matches_filter(#[trigger] s[k], filter),
    ensures
        choice(s, filter, quality) == Err::<int, VideoError>(VideoError::FormatNotFound),
{
    lemma_no_first_match(s, filter, 0);
    lemma_no_last_match(s, filter, s.len() as int);
}

} // verus!
