use rusty_ytdl::extras::{get_chapters, get_dislikes, get_likes, parse_label_count};
use rusty_ytdl::json::parse_json;

const DATA: &str = r#"{"contents":{"twoColumnWatchNextResults":{"results":{"results":{"contents":[
  {"somethingElse":{}},
  {"videoPrimaryInfoRenderer":{"videoActions":{"menuRenderer":{"topLevelButtons":[
    {"toggleButtonRenderer":{"defaultIcon":{"iconType":"LIKE"},"defaultText":{"accessibility":{"accessibilityData":{"label":"1,234,567 likes"}}}}},
    {"toggleButtonRenderer":{"defaultIcon":{"iconType":"DISLIKE"},"defaultText":{"accessibility":{"accessibilityData":{"label":"89 dislikes"}}}}}
  ]}}}}
]}}}}}"#;

const PLAYER: &str = r#"{"playerOverlays":{"playerOverlayRenderer":{"decoratedPlayerBarRenderer":{"decoratedPlayerBarRenderer":{"playerBar":{"multiMarkersPlayerBarRenderer":{"markersMap":[
  {"key":"HEATSEEKER","value":{"heatmap":{}}},
  {"key":"DESCRIPTION_CHAPTERS","value":{"chapters":[
    {"chapterRenderer":{"title":{"simpleText":"Intro"},"timeRangeStartMillis":0}},
    {"chapterRenderer":{"title":{"runs":[{"text":"Main part"}]},"timeRangeStartMillis":75999}}
  ]}}
]}}}}}}}"#;

#[test]
fn likes_and_dislikes_are_read() {
    let data = parse_json(DATA).unwrap();
    assert_eq!(get_likes(&data), 1234567);
    assert_eq!(get_dislikes(&data), 89);
}

#[test]
fn missing_counts_are_zero() {
    let data = parse_json("{}").unwrap();
    assert_eq!(get_likes(&data), 0);
    assert_eq!(get_dislikes(&data), 0);
}

#[test]
fn label_counts() {
    assert_eq!(parse_label_count("12 345"), 12345);
    assert_eq!(parse_label_count("no digits"), 0);
    assert_eq!(parse_label_count("99999999999"), 0);
}

#[test]
fn chapters_are_listed_in_order() {
    let player = parse_json(PLAYER).unwrap();
    let cs = get_chapters(&player).unwrap();
    assert_eq!(cs.len(), 2);
    assert_eq!(cs[0].title, "Intro");
    assert_eq!(cs[0].start_time, 0);
    assert_eq!(cs[1].title, "Main part");
    assert_eq!(cs[1].start_time, 75);
}

#[test]
fn no_chapter_marker_gives_no_chapters() {
    assert!(get_chapters(&parse_json("{}").unwrap()).unwrap().is_empty());
}

const BOARDS: &str = r#"{"storyboards":{"playerStoryboardSpecRenderer":{"spec":"https://i.ytimg.com/sb/ID/storyboard3_L$L/$N.jpg|48#27#100#10#10#0#default#rs$AOn4|80#45#50#10#10#2000#M$M#rs$AOn5|1#2"}}}"#;

#[test]
fn storyboards_are_read_from_the_spec() {
    let info = parse_json(BOARDS).unwrap();
    let bs = rusty_ytdl::storyboard::get_storyboards(&info).unwrap();
    assert_eq!(bs.len(), 3);
    assert_eq!(bs[0].template_url, "https://i.ytimg.com/sb/ID/storyboard3_L0/default.jpg?sigh=rs%24AOn4");
    assert_eq!(bs[0].thumbnail_width, 48);
    assert_eq!(bs[0].thumbnail_height, 27);
    assert_eq!(bs[0].thumbnail_count, 100);
    assert_eq!(bs[0].columns, 10);
    assert_eq!(bs[0].rows, 10);
    assert_eq!(bs[0].interval, 0);
    assert_eq!(bs[0].storyboard_count, 1);
    assert_eq!(
        bs[1].template_url,
        "https://i.ytimg.com/sb/ID/storyboard3_L1/M$M.jpg?sigh=rs%24AOn4&sigh=rs%24AOn5"
    );
    assert_eq!(bs[1].interval, 2000);
    assert_eq!(bs[1].storyboard_count, 0);
    assert_eq!(bs[2].thumbnail_width, 1);
    assert_eq!(bs[2].thumbnail_count, 0);
    assert_eq!(bs[2].storyboard_count, 0);
}

#[test]
fn no_storyboard_spec_gives_none() {
    assert!(rusty_ytdl::storyboard::get_storyboards(&parse_json("{}").unwrap()).unwrap().is_empty());
}
