use rusty_ytdl::format::{sort_formats, Container, VideoFormat};
use rusty_ytdl::select::{choose_format, VideoQuality, VideoSearchOptions};
use rusty_ytdl::VideoError;

fn fmt(itag: u64, v: bool, a: bool, c: Container, h: u64, b: u64, url: &str) -> VideoFormat {
    VideoFormat {
        itag,
        mime_type: String::new(),
        container: c,
        bitrate: b,
        audio_bitrate: if a { Some(128) } else { None },
        height: if v { Some(h) } else { None },
        quality_label: None,
        content_length: None,
        url: url.to_string(),
        has_video: v,
        has_audio: a,
        is_live: false,
        is_hls: false,
        is_dash_mpd: false,
    }
}

fn sample() -> Vec<VideoFormat> {
    vec![
        fmt(1, true, false, Container::Mp4, 720, 1000, "u1"),
        fmt(2, false, true, Container::Webm, 0, 160, "u2"),
        fmt(3, true, true, Container::Mp4, 720, 1000, "u3"),
        fmt(4, true, false, Container::Webm, 1080, 3000, "u4"),
        fmt(5, true, false, Container::Mp4, 720, 1000, "u5"),
        fmt(6, true, true, Container::Webm, 360, 500, "u6"),
    ]
}

fn itags(v: &[VideoFormat]) -> Vec<u64> {
    v.iter().map(|f| f.itag).collect()
}

#[test]
fn sort_puts_audio_video_first_and_keeps_ties_in_order() {
    let mut v = sample();
    sort_formats(&mut v);
    assert_eq!(itags(&v), vec![3, 6, 1, 5, 4, 2]);
}

#[test]
fn sorting_twice_changes_nothing() {
    let mut v = sample();
    sort_formats(&mut v);
    let once = itags(&v);
    sort_formats(&mut v);
    assert_eq!(itags(&v), once);
}

#[test]
fn sort_of_empty_list() {
    let mut v: Vec<VideoFormat> = vec![];
    sort_formats(&mut v);
    assert!(v.is_empty());
}

#[test]
fn choose_highest_and_lowest() {
    let mut v = sample();
    sort_formats(&mut v);
    let hi = choose_format(&v, VideoSearchOptions::VideoOnly, VideoQuality::Highest).unwrap();
    assert_eq!(hi.itag, 1);
    let lo = choose_format(&v, VideoSearchOptions::VideoOnly, VideoQuality::Lowest).unwrap();
    assert_eq!(lo.itag, 4);
    let audio = choose_format(&v, VideoSearchOptions::AudioOnly, VideoQuality::Highest).unwrap();
    assert_eq!(audio.itag, 2);
    let webm = choose_format(&v, VideoSearchOptions::Container(Container::Webm), VideoQuality::Highest).unwrap();
    assert_eq!(webm.itag, 6);
    let by_itag = choose_format(&v, VideoSearchOptions::Itag(5), VideoQuality::Lowest).unwrap();
    assert_eq!(by_itag.url, "u5");
}

#[test]
fn no_match_is_format_not_found() {
    let v = sample();
    assert!(matches!(
        choose_format(&v, VideoSearchOptions::Itag(99), VideoQuality::Highest),
        Err(VideoError::FormatNotFound)
    ));
    assert!(matches!(
        choose_format(&vec![], VideoSearchOptions::Video, VideoQuality::Lowest),
        Err(VideoError::FormatNotFound)
    ));
}

#[test]
fn match_without_locator_is_format_not_found() {
    let v = vec![fmt(7, true, true, Container::Mp4, 720, 1, ""), fmt(8, true, true, Container::Mp4, 360, 1, "u8")];
    assert!(matches!(
        choose_format(&v, VideoSearchOptions::VideoAudio, VideoQuality::Highest),
        Err(VideoError::FormatNotFound)
    ));
    assert_eq!(choose_format(&v, VideoSearchOptions::VideoAudio, VideoQuality::Lowest).unwrap().itag, 8);
}

#[test]
fn choose_by_height() {
    let mut v = sample();
    sort_formats(&mut v);
    assert_eq!(choose_format(&v, VideoSearchOptions::Height(1080), VideoQuality::Highest).unwrap().itag, 4);
    assert_eq!(choose_format(&v, VideoSearchOptions::Height(720), VideoQuality::Lowest).unwrap().itag, 5);
    assert!(matches!(
        choose_format(&v, VideoSearchOptions::Height(480), VideoQuality::Highest),
        Err(VideoError::FormatNotFound)
    ));
}
