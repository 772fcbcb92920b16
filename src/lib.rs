//! Extracts video metadata and playable formats from a video site's watch pages,
//! and plans resumable, windowed downloads of one chosen format.
//!
//! The library takes what the network returned (page text, player script, manifest
//! text) and decides everything else: which documents a page seeds, whether the
//! video is playable, which formats it offers and where their bytes are, how they
//! sort, which one a filter picks, and which byte window to request next.

pub mod author;
pub mod catalog;
pub mod decipher;
pub mod error;
pub mod extract;
pub mod extras;
pub mod format;
pub mod gate;
pub mod info;
pub mod itags;
pub mod json;
pub mod manifest;
pub mod numbers;
pub mod select;
pub mod storyboard;
pub mod stream;
pub mod text;
pub mod video_id;

pub use error::VideoError;
pub use info::{Video, VideoDetails, VideoInfo, VideoOptions};
pub use select::choose_format;
pub use video_id::get_video_id;
