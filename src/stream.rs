use vstd::prelude::*;
use crate::error::VideoError;
use crate::format::VideoFormat;

verus! {

/// The window size used when none is given: 10 MiB.
pub const DEFAULT_DL_CHUNK_SIZE: u64 = 10485760;

/// The bytes `start` up to, not including, `end`.
#[derive(Clone, Copy, Debug, PartialEq, Eq, Structural)]
pub struct ByteRange {
    pub start: u64,
    pub end: u64,
}

/// A pull-based byte source over one format: each pull names the next window of
/// bytes to request. A bounded source knows its length; an open-ended (live) one
/// goes on until the origin signals completion.
#[derive(Debug)]
pub struct Stream {
    pub url: String,
    pub position: u64,
    pub window: u64,
    pub content_length: Option<u64>,
    pub finished: bool,
}

/// The end of the window that starts at `p`, of size `w`, in a source of length `len`.
pub open spec fn window_end(p: int, w: int, len: int) -> int {
    if p + w < len {
        p + w
    } else {
        len
    }
}

impl Stream {
    /// The window size is positive.
    pub open spec fn wf(&self) -> bool {
        self.window > 0
    }

    /// Opens a source at byte 0. `content_length` is `None` for an open-ended source;
    /// `dl_chunk_size` overrides the default window size. A window size of 0 is refused.
    pub fn new(url: String, content_length: Option<u64>, dl_chunk_size: Option<u64>) -> (r: Result<
        Stream,
        VideoError,
    >)
        ensures
            match dl_chunk_size {
                Some(0) => r == Err::<Stream, VideoError>(VideoError::ConfigError),
                _ => r is Ok,
            },
            r matches Ok(s) ==> s.wf() && s.url == url && s.position == 0 && s.content_length
                == content_length && !s.finished && s.window == match dl_chunk_size {
                Some(w) => w,
                None => DEFAULT_DL_CHUNK_SIZE,
            },
    {
        let window = match dl_chunk_size {
            Some(w) => w,
            None => DEFAULT_DL_CHUNK_SIZE,
        };
        if window == 0 {
            return Err(VideoError::ConfigError);
        }
        Ok(Stream { url, position: 0, window, content_length, finished: false })
    }

    /// The total length of a bounded source; 0 for an open-ended one.
    pub fn content_length(&self) -> (r: u64)
        ensures
            r == match self.content_length {
                Some(n) => n,
                None => 0,
            },
    {
        match self.content_length {
            Some(n) => n,
            None => 0,
        }
    }

    /// Whether the source is open-ended.
    pub fn is_live(&self) -> (r: bool)
        ensures
            r == self.content_length is None,
    {
        self.content_length.is_none()
    }

    /// The next window to request, advancing past it; `None` once the source is
    /// exhausted. A bounded source yields `[position, min(position + window, length))`
    /// while `position < length`; an open-ended one yields `[position, position + window)`
    /// until `finish` is called or the offsets run out.
    pub fn next_range(&mut self) -> (r: Option<ByteRange>)
        requires
            old(self).wf(),
        ensures
            final(self).wf(),
            final(self).url == old(self).url,
            final(self).window == old(self).window,
            final(self).content_length == old(self).content_length,
            final(self).finished == old(self).finished,
            match old(self).content_length {
                Some(len) => if old(self).position >= len {
                    r is None && final(self).position == old(self).position
                } else {
                    r == Some(
                        ByteRange {
                            start: old(self).position,
                            end: window_end(
                                old(self).position as int,
                                old(self).window as int,
                                len as int,
                            ) as u64,
                        },
                    ) && final(self).position as int == window_end(
                        old(self).position as int,
                        old(self).window as int,
                        len as int,
                    )
                },
                None => if old(self).finished || old(self).position == u64::MAX {
                    r is None && final(self).position == old(self).position
                } else {
                    r == Some(
                        ByteRange {
                            start: old(self).position,
                            end: window_end(
                                old(self).position as int,
                                old(self).window as int,
                                u64::MAX as int,
                            ) as u64,
                        },
                    ) && final(self).position as int == window_end(
                        old(self).position as int,
                        old(self).window as int,
                        u64::MAX as int,
                    )
                },
            },
    {
        let limit = match self.content_length {
            Some(len) => len,
            None => {
                if self.finished {
                    return None;
                }
                u64::MAX
            },
        };
        if self.position >= limit {
            return None;
        }
        let start = self.position;
        let end = if self.window < limit - start {
            start + self.window
        } else {
            limit
        };
        self.position = end;
        Some(ByteRange { start, end })
    }

    /// Records how many bytes the last window delivered: an empty window ends an
    /// open-ended source; a bounded source is not changed. Returns whether the
    /// source has ended.
    pub fn record_chunk(&mut self, received: u64) -> (r: bool)
        requires
            old(self).wf(),
        ensures
            final(self).wf(),
            final(self).url == old(self).url,
            final(self).position == old(self).position,
            final(self).window == old(self).window,
            final(self).content_length == old(self).content_length,
            final(self).finished == (old(self).finished || (old(self).content_length is None
                && received == 0)),
            r == (final(self).content_length is None && final(self).finished),
    {
        if self.content_length.is_none() && received == 0 {
            self.finished = true;
        }
        self.content_length.is_none() && self.finished
    }

    /// Records that the origin signalled the end of an open-ended source.
    pub fn finish(&mut self)
        requires
            old(self).wf(),
        ensures
            final(self).wf(),
            final(self).finished,
            final(self).url == old(self).url,
            final(self).position == old(self).position,
            final(self).window == old(self).window,
            final(self).content_length == old(self).content_length,
    {
        self.finished = true;
    }
}

/// Whether a format's bytes come as an open-ended source: a live or HLS format.
pub fn is_open_ended(f: &VideoFormat) -> (r: bool)
    ensures
        r == (f.is_live || f.is_hls),
{
    f.is_live || f.is_hls
}

/// Whether the origin must be asked for a format's length before a stream opens:
/// a bounded format that declares none.
pub fn needs_length_probe(f: &VideoFormat) -> (r: bool)
    ensures
        r == (!(f.is_live || f.is_hls) && f.content_length is None),
{
    !is_open_ended(f) && f.content_length.is_none()
}

/// Opens the stream of a format: open-ended for a live or HLS format, else bounded
/// by the declared length or, failing that, by the length the origin reported.
/// `VideoSourceNotFound` when a bounded format has neither.
pub fn open_format(f: &VideoFormat, reported: Option<u64>, dl_chunk_size: Option<u64>) -> (r:
    Result<Stream, VideoError>)
    ensures
        ({
            let len = if f.is_live || f.is_hls {
                Some(None::<u64>)
            } else {
                match f.content_length {
                    Some(n) => Some(Some(n)),
                    None => match reported {
                        Some(n) => Some(Some(n)),
                        None => None,
                    },
                }
            };
            match len {
                None => r == Err::<Stream, VideoError>(VideoError::VideoSourceNotFound),
                Some(l) => match dl_chunk_size {
                    Some(0) => r == Err::<Stream, VideoError>(VideoError::ConfigError),
                    _ => r matches Ok(s) && s.wf() && s.url@ == f.url@ && s.position == 0
                        && s.content_length == l && !s.finished && s.window == match dl_chunk_size {
                        Some(w) => w,
                        None => DEFAULT_DL_CHUNK_SIZE,
                    },
                },
            }
        }),
{
    let length = if is_open_ended(f) {
        None
    } else {
        match f.content_length {
            Some(n) => Some(n),
            None => match reported {
                Some(n) => Some(n),
                None => {
                    return Err(VideoError::VideoSourceNotFound);
                },
            },
        }
    };
    Stream::new(f.url.clone(), length, dl_chunk_size)
}

/// Pulls from a bounded source never go past its length, and each window is
/// non-empty and at most the window size.
pub proof fn lemma_window_within_length(p: int, w: int, len: int)
    requires
        0 <= p < len,
        w > 0,
    ensures
        p < window_end(p, w, len) <= len,
        window_end(p, w, len) - p <= w,
{
}

} // verus!
