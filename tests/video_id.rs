use rusty_ytdl::info::Video;
use rusty_ytdl::video_id::{get_video_id, validate_id};
use rusty_ytdl::VideoError;

#[test]
fn bare_id_is_taken_as_is() {
    assert_eq!(get_video_id("dQw4w9WgXcQ"), Some("dQw4w9WgXcQ".to_string()));
}

#[test]
fn all_url_forms_give_the_same_id() {
    let id = Some("dQw4w9WgXcQ".to_string());
    assert_eq!(get_video_id("https://www.youtube.com/watch?v=dQw4w9WgXcQ"), id);
    assert_eq!(get_video_id("https://youtube.com/watch?v=dQw4w9WgXcQ&t=10"), id);
    assert_eq!(get_video_id("https://m.youtube.com/watch?feature=share&v=dQw4w9WgXcQ"), id);
    assert_eq!(get_video_id("http://youtu.be/dQw4w9WgXcQ"), id);
    assert_eq!(get_video_id("https://www.youtube.com/embed/dQw4w9WgXcQ"), id);
    assert_eq!(get_video_id("https://www.youtube.com/shorts/dQw4w9WgXcQ?x=1"), id);
    assert_eq!(get_video_id("https://music.youtube.com/watch?v=dQw4w9WgXcQ"), id);
    assert_eq!(get_video_id("https://www.youtube.com/live/dQw4w9WgXcQ"), id);
    assert_eq!(get_video_id("https://www.youtube.com/v/dQw4w9WgXcQ"), id);
}

#[test]
fn malformed_inputs_give_no_id() {
    assert_eq!(get_video_id("dQw4w9WgXc"), None);
    assert_eq!(get_video_id("dQw4w9WgXcQQ"), None);
    assert_eq!(get_video_id("https://www.youtube.com/watch?v=dQw4w9WgXcQQ"), None);
    assert_eq!(get_video_id("https://example.com/watch?v=dQw4w9WgXcQ"), None);
    assert_eq!(get_video_id("www.youtube.com/watch?v=dQw4w9WgXcQ"), None);
    assert_eq!(get_video_id(""), None);
}

#[test]
fn validate_id_checks_length_and_characters() {
    assert!(validate_id("abc-_DEF012"));
    assert!(!validate_id("abc-_DEF01!"));
    assert!(!validate_id("short"));
}

#[test]
fn video_new_rejects_unknown_input() {
    assert!(matches!(Video::new("not a video"), Err(VideoError::VideoNotFound)));
}

#[test]
fn video_url_and_id_round_trip() {
    let v = Video::new("https://youtu.be/dQw4w9WgXcQ").unwrap();
    assert_eq!(v.get_video_id(), "dQw4w9WgXcQ");
    assert_eq!(v.get_video_url(), "https://www.youtube.com/watch?v=dQw4w9WgXcQ");
    let w = Video::new(&v.get_video_url()).unwrap();
    assert_eq!(w.get_video_id(), v.get_video_id());
}
