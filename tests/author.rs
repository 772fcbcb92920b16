use rusty_ytdl::author::{get_author, parse_abbreviated_number};
use rusty_ytdl::json::parse_json;

const INITIAL: &str = r#"{"contents":{"twoColumnWatchNextResults":{"results":{"results":{"contents":[
  {"videoPrimaryInfoRenderer":{}},
  {"videoSecondaryInfoRenderer":{"owner":{"videoOwnerRenderer":{
    "navigationEndpoint":{"browseEndpoint":{"browseId":"UC123"}},
    "thumbnail":{"thumbnails":[{"url":"https://a/1.jpg","width":48,"height":"48"},{"url":"https://a/2.jpg","width":"x","height":-3}]},
    "subscriberCountText":{"simpleText":"1.25M subscribers"},
    "badges":[{"metadataBadgeRenderer":{"tooltip":"Official"}},{"metadataBadgeRenderer":{"tooltip":"Verified"}}]
  }}}}
]}}}}}"#;

const PLAYER: &str = r#"{"microformat":{"playerMicroformatRenderer":{
  "ownerProfileUrl":" http://www.youtube.com/@someone ",
  "ownerChannelName":"Some One",
  "externalChannelId":"UCext"}},
  "videoDetails":{"channelId":"UCvd","author":"Fallback"}}"#;

#[test]
fn author_is_assembled_from_both_documents() {
    let a = get_author(&parse_json(INITIAL).unwrap(), &parse_json(PLAYER).unwrap()).unwrap();
    assert_eq!(a.id, "UC123");
    assert_eq!(a.name, "Some One");
    assert_eq!(a.user, "@someone");
    assert_eq!(a.channel_url, "https://www.youtube.com/channel/UC123");
    assert_eq!(a.external_channel_url, "https://www.youtube.com/channel/UCext");
    assert_eq!(a.user_url, "https://www.youtube.com/@someone");
    assert_eq!(a.thumbnails.len(), 2);
    assert_eq!((a.thumbnails[0].width, a.thumbnails[0].height), (48, 48));
    assert_eq!(a.thumbnails[0].url, "https://a/1.jpg");
    assert_eq!((a.thumbnails[1].width, a.thumbnails[1].height), (0, u64::MAX - 2));
    assert!(a.verified);
    assert_eq!(a.subscriber_count, 1250000);
}

#[test]
fn author_falls_back_to_video_details() {
    let player = parse_json(r#"{"videoDetails":{"channelId":"UCvd","author":"Fallback"}}"#).unwrap();
    let a = get_author(&parse_json("{}").unwrap(), &player).unwrap();
    assert_eq!(a.id, "UCvd");
    assert_eq!(a.name, "Fallback");
    assert_eq!(a.user, "");
    assert_eq!(a.user_url, "");
    assert_eq!(a.external_channel_url, "");
    assert_eq!(a.channel_url, "https://www.youtube.com/channel/UCvd");
    assert!(a.thumbnails.is_empty());
    assert!(!a.verified);
    assert_eq!(a.subscriber_count, 0);
}

#[test]
fn microformat_channel_id_wins() {
    let player = parse_json(r#"{"microformat":{"playerMicroformatRenderer":{"channelId":"UCmf"}}}"#).unwrap();
    let a = get_author(&parse_json(INITIAL).unwrap(), &player).unwrap();
    assert_eq!(a.id, "UCmf");
}

#[test]
fn abbreviated_numbers() {
    assert_eq!(parse_abbreviated_number("532K subscribers"), 532000);
    assert_eq!(parse_abbreviated_number("1,5K"), 1500);
    assert_eq!(parse_abbreviated_number("12"), 12);
    assert_eq!(parse_abbreviated_number("2.5M"), 2500000);
    assert_eq!(parse_abbreviated_number("0.0015K"), 2);
    assert_eq!(parse_abbreviated_number("none"), 0);
    assert_eq!(parse_abbreviated_number("5000M"), 2147483647);
}

#[test]
fn profile_address_is_trimmed_of_unicode_white_space() {
    let player = rusty_ytdl::json::Json::Object(vec![rusty_ytdl::json::JsonEntry {
        key: "microformat".to_string(),
        value: rusty_ytdl::json::Json::Object(vec![rusty_ytdl::json::JsonEntry {
            key: "playerMicroformatRenderer".to_string(),
            value: rusty_ytdl::json::Json::Object(vec![rusty_ytdl::json::JsonEntry {
                key: "ownerProfileUrl".to_string(),
                value: rusty_ytdl::json::Json::Str("\u{a0}a/b\u{c}".to_string()),
            }]),
        }]),
    }]);
    let a = get_author(&parse_json("{}").unwrap(), &player).unwrap();
    assert_eq!(a.user, "b");
    assert_eq!(a.user_url, "https://www.youtube.com/b");
}

#[test]
fn avatar_sizes_read_any_i64() {
    let initial = r#"{"contents":{"twoColumnWatchNextResults":{"results":{"results":{"contents":[
      {"videoSecondaryInfoRenderer":{"owner":{"videoOwnerRenderer":{"thumbnail":{"thumbnails":[
        {"url":"u","width":"1000000000000000000","height":"+12"},
        {"url":"v","width":"-1","height":"9223372036854775808"},
        {"url":"w","width":-2,"height":"0007"}
      ]}}}}}
    ]}}}}}"#;
    let a = get_author(&parse_json(initial).unwrap(), &parse_json("{}").unwrap()).unwrap();
    assert_eq!(a.thumbnails[0].width, 1000000000000000000);
    assert_eq!(a.thumbnails[0].height, 12);
    assert_eq!(a.thumbnails[1].width, u64::MAX);
    assert_eq!(a.thumbnails[1].height, 0);
    assert_eq!(a.thumbnails[2].width, u64::MAX - 1);
    assert_eq!(a.thumbnails[2].height, 7);
}
