use rusty_ytdl::extract::extract_blobs;
use rusty_ytdl::info::get_html5player;
use rusty_ytdl::itags::lookup_itag;
use rusty_ytdl::manifest::{manifest_request_url, parse_manifest};
use rusty_ytdl::numbers::parse_number;
use rusty_ytdl::text::occurs_at_exec;
use rusty_ytdl::VideoError;

const PAGE: &str = "<html><head><script>var other = 1;</script><script>var ytInitialPlayerResponse = {\"a\":1};</script></head><body><script>  var ytInitialData = {\"b\":[2]};\n</script><script>var ytInitialData = {\"c\":3};</script></body></html>";

#[test]
fn both_blobs_are_extracted() {
    let (p, d) = extract_blobs(PAGE).unwrap();
    assert_eq!(p, "{\"a\":1}");
    assert_eq!(d, "{\"b\":[2]}");
}

#[test]
fn missing_blob_is_parse_error() {
    let page = "<html><script>var ytInitialPlayerResponse = {};</script></html>";
    assert_eq!(extract_blobs(page), Err(VideoError::ParseError));
    assert_eq!(extract_blobs(""), Err(VideoError::ParseError));
}

#[test]
fn player_script_address_is_found() {
    let page = "x \"jsUrl\":\"/s/player/abc/base.js\" y";
    assert_eq!(get_html5player(page), Some("https://www.youtube.com/s/player/abc/base.js".to_string()));
    assert_eq!(get_html5player("nothing here"), None);
}

#[test]
fn manifest_lines_with_known_itags_become_formats() {
    let m = "#EXTM3U\nhttps://a.example/itag/93/x\nhttps://a.example/itag/9999/x\nnot a url /itag/94/\nhttps://a.example/source/yt_live_broadcast/itag/96/y";
    let fs = parse_manifest(m);
    assert_eq!(fs.len(), 2);
    assert_eq!(fs[0].itag, 93);
    assert_eq!(fs[0].url, "https://a.example/itag/93/x");
    assert_eq!(fs[0].height, Some(360));
    assert!(fs[0].is_hls && !fs[0].is_live);
    assert_eq!(fs[1].itag, 96);
    assert!(fs[1].is_live);
    assert!(parse_manifest("").is_empty());
}

#[test]
fn manifest_host_is_rewritten() {
    assert_eq!(
        manifest_request_url("https://manifest.googlevideo.com/api/manifest/hls_variant/x"),
        Some("https://www.youtube.com/api/manifest/hls_variant/x".to_string())
    );
    assert_eq!(manifest_request_url("not an address"), None);
}

#[test]
fn itag_table_lookups() {
    let m = lookup_itag(22).unwrap();
    assert_eq!(m.height, 720);
    assert_eq!(m.audio_bitrate, 192);
    assert!(lookup_itag(12345).is_none());
}

#[test]
fn numbers_parse_exactly() {
    assert_eq!(parse_number(&"0042".chars().collect()), Some(42));
    assert_eq!(parse_number(&"".chars().collect()), None);
    assert_eq!(parse_number(&"12a".chars().collect()), None);
    assert_eq!(parse_number(&"999999999999999999".chars().collect()), Some(999999999999999999));
    assert_eq!(parse_number(&"1000000000000000000".chars().collect()), Some(1000000000000000000));
    assert_eq!(parse_number(&"18446744073709551615".chars().collect()), Some(u64::MAX));
    assert_eq!(parse_number(&"18446744073709551616".chars().collect()), None);
    assert_eq!(parse_number(&"000000000000000000000007".chars().collect()), Some(7));
}

#[test]
fn occurrence_checks() {
    let s: Vec<char> = "hello".chars().collect();
    assert!(occurs_at_exec(&s, 1, &"ell".chars().collect()));
    assert!(!occurs_at_exec(&s, 3, &"lox".chars().collect()));
}

#[test]
fn watch_page_documents_are_parsed() {
    let (p, d) = rusty_ytdl::extract::parse_watch_page(PAGE).unwrap();
    assert_eq!(p.get("a").and_then(|v| v.as_i64()), Some(1));
    let b = d.get("b").and_then(|v| v.as_array()).unwrap();
    assert_eq!(b.len(), 1);
    assert_eq!(b[0].as_i64(), Some(2));
}

#[test]
fn unparsable_document_is_parse_error() {
    let page = "<script>var ytInitialPlayerResponse = {oops};</script><script>var ytInitialData = {};</script>";
    assert!(matches!(rusty_ytdl::extract::parse_watch_page(page), Err(VideoError::ParseError)));
}

#[test]
fn json_values_convert() {
    let j = rusty_ytdl::json::parse_json("{\"s\":\"x\",\"t\":true,\"n\":-5,\"f\":1.5,\"z\":null,\"o\":{\"k\":[1,2]}}").unwrap();
    assert_eq!(j.get("s").and_then(|v| v.as_str()).map(|s| s.as_str()), Some("x"));
    assert_eq!(j.get("t").and_then(|v| v.as_bool()), Some(true));
    assert_eq!(j.get("n").and_then(|v| v.as_i64()), Some(-5));
    assert!(j.get("f").unwrap().as_i64().is_none());
    assert_eq!(j.get_path(&["o", "k"]).and_then(|v| v.as_array()).map(|a| a.len()), Some(2));
    assert!(j.get("missing").is_none());
    assert!(rusty_ytdl::json::parse_json("not json").is_none());
}
