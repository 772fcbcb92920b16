use rusty_ytdl::stream::{needs_length_probe, open_format, ByteRange, Stream, DEFAULT_DL_CHUNK_SIZE};
use rusty_ytdl::VideoError;

#[test]
fn bounded_stream_windows() {
    let mut s = Stream::new("u".to_string(), Some(25), Some(10)).unwrap();
    assert_eq!(s.next_range(), Some(ByteRange { start: 0, end: 10 }));
    assert_eq!(s.next_range(), Some(ByteRange { start: 10, end: 20 }));
    assert_eq!(s.next_range(), Some(ByteRange { start: 20, end: 25 }));
    assert_eq!(s.next_range(), None);
    assert_eq!(s.next_range(), None);
    assert_eq!(s.content_length(), 25);
}

#[test]
fn empty_stream_ends_at_once() {
    let mut s = Stream::new("u".to_string(), Some(0), Some(10)).unwrap();
    assert_eq!(s.next_range(), None);
}

#[test]
fn zero_window_is_refused() {
    assert!(matches!(Stream::new("u".to_string(), Some(5), Some(0)), Err(VideoError::ConfigError)));
}

#[test]
fn default_window_is_used() {
    let mut s = Stream::new("u".to_string(), Some(DEFAULT_DL_CHUNK_SIZE * 2 + 1), None).unwrap();
    assert_eq!(s.window, 10485760);
    assert_eq!(s.next_range(), Some(ByteRange { start: 0, end: 10485760 }));
    assert_eq!(s.next_range(), Some(ByteRange { start: 10485760, end: 20971520 }));
    assert_eq!(s.next_range(), Some(ByteRange { start: 20971520, end: 20971521 }));
    assert_eq!(s.next_range(), None);
}

#[test]
fn live_stream_runs_until_finished() {
    let mut s = Stream::new("u".to_string(), None, Some(4)).unwrap();
    assert!(s.is_live());
    assert_eq!(s.content_length(), 0);
    assert_eq!(s.next_range(), Some(ByteRange { start: 0, end: 4 }));
    assert_eq!(s.next_range(), Some(ByteRange { start: 4, end: 8 }));
    s.finish();
    assert_eq!(s.next_range(), None);
}

fn format(content_length: Option<u64>, is_live: bool, is_hls: bool) -> rusty_ytdl::format::VideoFormat {
    rusty_ytdl::format::VideoFormat {
        itag: 18,
        mime_type: String::new(),
        container: rusty_ytdl::format::Container::Mp4,
        bitrate: 1,
        audio_bitrate: None,
        height: None,
        quality_label: None,
        content_length,
        url: "https://x/y".to_string(),
        has_video: true,
        has_audio: true,
        is_live,
        is_hls,
        is_dash_mpd: false,
    }
}

#[test]
fn streams_open_by_format_kind() {
    let declared = format(Some(30), false, false);
    assert!(!needs_length_probe(&declared));
    let s = open_format(&declared, Some(99), Some(7)).unwrap();
    assert_eq!(s.content_length, Some(30));
    assert_eq!(s.url, "https://x/y");
    let undeclared = format(None, false, false);
    assert!(needs_length_probe(&undeclared));
    assert_eq!(open_format(&undeclared, Some(99), None).unwrap().content_length, Some(99));
    assert!(matches!(open_format(&undeclared, None, None), Err(VideoError::VideoSourceNotFound)));
    let live = format(None, true, false);
    assert!(!needs_length_probe(&live));
    assert!(open_format(&live, None, None).unwrap().is_live());
    assert!(matches!(open_format(&declared, None, Some(0)), Err(VideoError::ConfigError)));
}

#[test]
fn empty_window_ends_a_live_stream_only() {
    let mut live = Stream::new("u".to_string(), None, Some(4)).unwrap();
    assert!(!live.record_chunk(4));
    assert!(live.record_chunk(0));
    assert_eq!(live.next_range(), None);
    let mut bounded = Stream::new("u".to_string(), Some(8), Some(4)).unwrap();
    assert!(!bounded.record_chunk(0));
    assert_eq!(bounded.next_range(), Some(ByteRange { start: 0, end: 4 }));
}
