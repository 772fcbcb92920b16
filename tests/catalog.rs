use rusty_ytdl::catalog::{entry_locator, format_from_entry, parse_video_formats};
use rusty_ytdl::decipher::CipherOp;
use rusty_ytdl::format::Container;
use rusty_ytdl::gate::check_playability;
use rusty_ytdl::info::{merge_manifest, Video};
use rusty_ytdl::json::{Json, JsonEntry};
use rusty_ytdl::VideoError;

fn obj(entries: Vec<(&str, Json)>) -> Json {
    Json::Object(
        entries
            .into_iter()
            .map(|(k, v)| JsonEntry { key: k.to_string(), value: v })
            .collect(),
    )
}

fn text(s: &str) -> Json {
    Json::Str(s.to_string())
}

fn direct_entry() -> Json {
    obj(vec![
        ("itag", Json::Number(18)),
        ("url", text("https://rr.example.com/videoplayback?itag=18")),
        ("mimeType", text("video/mp4; codecs=\"avc1.42001E, mp4a.40.2\"")),
        ("bitrate", Json::Number(500000)),
        ("height", Json::Number(360)),
        ("qualityLabel", text("360p")),
        ("audioQuality", text("AUDIO_QUALITY_LOW")),
        ("contentLength", text("12345")),
    ])
}

fn cipher_entry() -> Json {
    obj(vec![
        ("itag", Json::Number(251)),
        (
            "signatureCipher",
            text("s=abc&sp=sig&url=https%3A%2F%2Frr.example.com%2Fvideoplayback%3Fitag%3D251"),
        ),
        ("mimeType", text("audio/webm; codecs=\"opus\"")),
        ("bitrate", Json::Number(160000)),
        ("audioQuality", text("AUDIO_QUALITY_MEDIUM")),
    ])
}

fn response() -> Json {
    obj(vec![
        ("playabilityStatus", obj(vec![("status", text("OK"))])),
        (
            "videoDetails",
            obj(vec![
                ("title", text("A title")),
                ("author", text("Someone")),
                ("lengthSeconds", text("212")),
                ("viewCount", text("1000")),
            ]),
        ),
        (
            "streamingData",
            obj(vec![
                ("formats", Json::Array(vec![direct_entry()])),
                ("adaptiveFormats", Json::Array(vec![cipher_entry()])),
            ]),
        ),
    ])
}

#[test]
fn entry_fields_are_read_and_enriched() {
    let f = format_from_entry(&direct_entry(), "https://x/y".to_string()).unwrap();
    assert_eq!(f.itag, 18);
    assert_eq!(f.container, Container::Mp4);
    assert_eq!(f.bitrate, 500000);
    assert_eq!(f.height, Some(360));
    assert_eq!(f.audio_bitrate, Some(96));
    assert_eq!(f.content_length, Some(12345));
    assert_eq!(f.quality_label, Some("360p".to_string()));
    assert!(f.has_video && f.has_audio);
    assert!(!f.is_hls && !f.is_dash_mpd && !f.is_live);
}

#[test]
fn entry_without_itag_is_dropped() {
    let e = obj(vec![("url", text("https://x/y"))]);
    assert!(format_from_entry(&e, "https://x/y".to_string()).is_none());
}

#[test]
fn cipher_locator_is_deciphered_into_the_address() {
    let loc = entry_locator(&cipher_entry(), &Some(vec![CipherOp::Reverse])).unwrap();
    assert_eq!(loc, "https://rr.example.com/videoplayback?itag=251&sig=cba");
}

#[test]
fn catalog_with_transform_keeps_both() {
    let fs = parse_video_formats(&response(), &Some(vec![CipherOp::Reverse]));
    assert_eq!(fs.len(), 2);
    assert_eq!(fs[0].itag, 18);
    assert_eq!(fs[1].itag, 251);
    assert!(fs[1].has_audio && !fs[1].has_video);
    assert_eq!(fs[1].container, Container::Webm);
}

#[test]
fn unsupported_script_drops_only_ciphered_format() {
    let fs = parse_video_formats(&response(), &None);
    assert_eq!(fs.len(), 1);
    assert_eq!(fs[0].itag, 18);
}

#[test]
fn gate_private_and_rental_reports_private() {
    let r = obj(vec![
        (
            "playabilityStatus",
            obj(vec![
                ("status", text("UNPLAYABLE")),
                ("errorScreen", obj(vec![("playerLegacyDesktopYpcOfferRenderer", obj(vec![]))])),
            ]),
        ),
        ("videoDetails", obj(vec![("isPrivate", Json::Bool(true))])),
        ("streamingData", obj(vec![])),
    ]);
    assert_eq!(check_playability(&r, false), Err(VideoError::VideoIsPrivate));
}

#[test]
fn gate_orders_its_checks() {
    let error = obj(vec![("playabilityStatus", obj(vec![("status", text("ERROR"))]))]);
    assert_eq!(check_playability(&error, false), Err(VideoError::VideoNotFound));
    let rental = obj(vec![
        (
            "playabilityStatus",
            obj(vec![
                ("status", text("UNPLAYABLE")),
                ("errorScreen", obj(vec![("playerLegacyDesktopYpcOfferRenderer", obj(vec![]))])),
            ]),
        ),
        ("streamingData", obj(vec![])),
    ]);
    assert_eq!(check_playability(&rental, false), Err(VideoError::VideoSourceNotFound));
    let bare = obj(vec![("playabilityStatus", obj(vec![("status", text("OK"))]))]);
    assert_eq!(check_playability(&bare, false), Err(VideoError::VideoSourceNotFound));
    let offline = obj(vec![
        ("playabilityStatus", obj(vec![("status", text("LIVE_STREAM_OFFLINE"))])),
        ("streamingData", obj(vec![])),
    ]);
    assert_eq!(check_playability(&offline, false), Ok(()));
    assert_eq!(check_playability(&offline, true), Err(VideoError::VideoSourceNotFound));
    assert_eq!(check_playability(&response(), true), Ok(()));
}

#[test]
fn basic_info_has_no_manifest_formats_and_full_info_adds_them() {
    let v = Video::new("dQw4w9WgXcQ").unwrap();
    let basic = v.info_from_response(&response(), &obj(vec![]), &None, false).unwrap();
    assert_eq!(basic.formats.len(), 1);
    assert_eq!(basic.video_details.title, "A title");
    assert_eq!(basic.video_details.length_seconds, 212);
    assert_eq!(basic.video_details.view_count, 1000);
    assert_eq!(basic.video_details.video_id, "dQw4w9WgXcQ");
    let manifest = "#EXTM3U\nhttps://m.example.com/itag/95/index.m3u8\n#EXT-X\nhttps://m.example.com/itag/1/x.m3u8\n";
    let full = merge_manifest(basic, Some(manifest));
    assert_eq!(full.formats.len(), 2);
    assert!(full.formats.iter().any(|f| f.itag == 18));
    assert!(full.formats.iter().any(|f| f.itag == 95 && f.is_hls));
}

#[test]
fn full_info_without_manifest_keeps_the_basic_formats() {
    let v = Video::new("dQw4w9WgXcQ").unwrap();
    let basic = v.info_from_response(&response(), &obj(vec![]), &Some(vec![CipherOp::Reverse]), true).unwrap();
    let itags: Vec<u64> = basic.formats.iter().map(|f| f.itag).collect();
    let full = merge_manifest(basic, None);
    let mut after: Vec<u64> = full.formats.iter().map(|f| f.itag).collect();
    after.sort();
    let mut before = itags.clone();
    before.sort();
    assert_eq!(before, after);
}

#[test]
fn failed_gate_is_returned_by_info() {
    let v = Video::new("dQw4w9WgXcQ").unwrap();
    let error = obj(vec![("playabilityStatus", obj(vec![("status", text("ERROR"))]))]);
    assert!(matches!(v.info_from_response(&error, &obj(vec![]), &None, false), Err(VideoError::VideoNotFound)));
}

#[test]
fn empty_catalog_is_source_not_found() {
    let v = Video::new("dQw4w9WgXcQ").unwrap();
    let r = obj(vec![
        ("playabilityStatus", obj(vec![("status", text("OK"))])),
        ("streamingData", obj(vec![("adaptiveFormats", Json::Array(vec![cipher_entry()]))])),
    ]);
    assert!(matches!(v.info_from_response(&r, &obj(vec![]), &None, false), Err(VideoError::VideoSourceNotFound)));
    let ok = v.info_from_response(&r, &obj(vec![]), &Some(vec![CipherOp::Splice(1)]), false).unwrap();
    assert_eq!(ok.formats.len(), 1);
    assert_eq!(ok.formats[0].url, "https://rr.example.com/videoplayback?itag=251&sig=bc");
}

#[test]
fn manifest_addresses_are_kept() {
    let v = Video::new("dQw4w9WgXcQ").unwrap();
    let r = obj(vec![
        ("playabilityStatus", obj(vec![("status", text("OK"))])),
        (
            "streamingData",
            obj(vec![
                ("formats", Json::Array(vec![direct_entry()])),
                ("hlsManifestUrl", text("https://m.example.com/hls")),
            ]),
        ),
    ]);
    let info = v.info_from_response(&r, &obj(vec![]), &None, false).unwrap();
    assert_eq!(info.hls_manifest_url, Some("https://m.example.com/hls".to_string()));
    assert_eq!(info.dash_manifest_url, None);
}

#[test]
fn new_uses_default_options() {
    let a = Video::new("https://www.youtube.com/watch?v=dQw4w9WgXcQ").unwrap();
    let b = Video::new("dQw4w9WgXcQ").unwrap();
    assert_eq!(a.get_video_id(), b.get_video_id());
    assert_eq!(a.options.quality, rusty_ytdl::select::VideoQuality::Highest);
    assert_eq!(a.options.filter, rusty_ytdl::select::VideoSearchOptions::VideoAudio);
    assert_eq!(a.options.download_options.dl_chunk_size, None);
    assert!(a.options.request_options.proxy.is_none());
}
