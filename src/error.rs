use vstd::prelude::*;

verus! {

/// The ways an operation of the library fails.
#[derive(Clone, Copy, Debug, PartialEq, Eq, Structural)]
pub enum VideoError {
    /// The input names no video, or the site reports an error for it.
    VideoNotFound,
    /// The video is private.
    VideoIsPrivate,
    /// No usable stream data: rental, not yet broadcast, no formats left.
    VideoSourceNotFound,
    /// A page or document does not have the expected shape.
    ParseError,
    /// No format satisfies the selection.
    FormatNotFound,
    /// The transport failed after its retries.
    TransportError,
    /// An option has a value that cannot be used.
    ConfigError,
}

} // verus!
