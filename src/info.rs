use vstd::prelude::*;
use crate::catalog::{catalog_of, raw_entries, ops_view, views, parse_video_formats};
use crate::decipher::CipherOp;
use crate::error::VideoError;
use crate::format::{VideoFormat, sorted_formats, sort_formats};
use crate::gate::{playability, check_playability};
use crate::json::{Json, at_path, str_of, path_view};
use crate::manifest::{manifest_from, parse_manifest};
use crate::numbers::{is_number, digits_value, parse_number, fits_u64};
use crate::select::{VideoQuality, VideoSearchOptions};
use crate::text::{find_from, chars_of, string_of, find_exec, sub_chars};
use crate::video_id::{BASE_URL, video_id_of, get_video_id};
use crate::author::{Author, author_view, author_of, get_author};
use crate::extras::{Chapter, button_count, chapters_of, get_chapters, get_likes, get_dislikes};
use crate::storyboard::{StoryBoard, storyboards_of, get_storyboards};

verus! {

/// Options of the download: the window size of a stream.
#[derive(Clone, Copy, Debug, PartialEq, Eq, Structural)]
pub struct DownloadOptions {
    pub dl_chunk_size: Option<u64>,
}

/// Options of the transport, which the caller's client applies.
#[derive(Debug)]
pub struct RequestOptions {
    pub proxy: Option<String>,
    pub cookies: Option<String>,
    pub ipv6_block: Option<String>,
}

/// What a `Video` is configured with.
#[derive(Debug)]
pub struct VideoOptions {
    pub quality: VideoQuality,
    pub filter: VideoSearchOptions,
    pub download_options: DownloadOptions,
    pub request_options: RequestOptions,
}

/// The default options: the highest format with audio and video, the default
/// window size, and no proxy, cookies or source address.
pub open spec fn is_default_options(o: VideoOptions) -> bool {
    &&& o.quality == VideoQuality::Highest
    &&& o.filter == VideoSearchOptions::VideoAudio
    &&& o.download_options.dl_chunk_size is None
    &&& o.request_options.proxy is None
    &&& o.request_options.cookies is None
    &&& o.request_options.ipv6_block is None
}

impl Default for VideoOptions {
    fn default() -> (r: VideoOptions)
        ensures
            is_default_options(r),
    {
        VideoOptions {
            quality: VideoQuality::Highest,
            filter: VideoSearchOptions::VideoAudio,
            download_options: DownloadOptions { dl_chunk_size: None },
            request_options: RequestOptions { proxy: None, cookies: None, ipv6_block: None },
        }
    }
}

/// The details of a video that its player response and initial data give.
#[derive(Debug)]
pub struct VideoDetails {
    pub video_id: String,
    pub title: String,
    pub description: String,
    pub length_seconds: u64,
    pub view_count: u64,
    pub author: Option<Author>,
    pub likes: i32,
    pub dislikes: i32,
    pub chapters: Vec<Chapter>,
    pub storyboards: Vec<StoryBoard>,
}

/// What is known of a video: its formats and its details.
#[derive(Debug)]
pub struct VideoInfo {
    pub formats: Vec<VideoFormat>,
    pub video_details: VideoDetails,
    pub hls_manifest_url: Option<String>,
    pub dash_manifest_url: Option<String>,
}

/// One video, named by its id, with the options it was created with.
#[derive(Debug)]
pub struct Video {
    pub video_id: String,
    pub options: VideoOptions,
}

/// The text at `videoDetails.<key>`, empty when there is none.
pub open spec fn detail_text(resp: Json, key: Seq<char>) -> Seq<char> {
    match str_of(at_path(resp, seq!["videoDetails"@, key])) {
        Some(t) => t,
        None => Seq::empty(),
    }
}

/// The number written at `videoDetails.<key>`, 0 when there is none.
pub open spec fn detail_number(resp: Json, key: Seq<char>) -> u64 {
    let t = detail_text(resp, key);
    if fits_u64(t) {
        digits_value(t) as u64
    } else {
        0
    }
}

fn detail_text_exec(resp: &Json, key: &str) -> (r: String)
    ensures
        r@ == detail_text(*resp, key@),
{
    let path: [&str; 2] = ["videoDetails", key];
    assert(path_view(path@) =~= seq!["videoDetails"@, key@]);
    match resp.get_path(&path) {
        Some(v) => match v.as_str() {
            Some(s) => s.clone(),
            None => String::new(),
        },
        None => String::new(),
    }
}

fn detail_number_exec(resp: &Json, key: &str) -> (r: u64)
    ensures
        r == detail_number(*resp, key@),
{
    let t = detail_text_exec(resp, key);
    match parse_number(&chars_of(t.as_str())) {
        Some(n) => n,
        None => 0,
    }
}

/// `d` holds the details of the video `id` that a player response and initial data give.
pub open spec fn details_of(d: VideoDetails, resp: Json, initial: Json, id: Seq<char>) -> bool {
    &&& d.video_id@ == id
    &&& d.title@ == detail_text(resp, "title"@)
    &&& d.description@ == detail_text(resp, "shortDescription"@)
    &&& d.length_seconds == detail_number(resp, "lengthSeconds"@)
    &&& d.view_count == detail_number(resp, "viewCount"@)
    &&& d.author matches Some(a) && author_view(a) == author_of(initial, resp)
    &&& d.likes == button_count(initial, "LIKE"@)
    &&& d.dislikes == button_count(initial, "DISLIKE"@)
    &&& d.chapters@.map_values(|c: Chapter| (c.title@, c.start_time)) == chapters_of(resp)
    &&& d.storyboards@.map_values(|b: StoryBoard| b@) == storyboards_of(resp)
}

/// The manifest address that a player response gives at `streamingData.<key>`.
pub open spec fn manifest_url_of(resp: Json, key: Seq<char>) -> Option<Seq<char>> {
    str_of(at_path(resp, seq!["streamingData"@, key]))
}

fn manifest_url_exec(resp: &Json, key: &str) -> (r: Option<String>)
    ensures
        match r {
            Some(u) => manifest_url_of(*resp, key@) == Some(u@),
            None => manifest_url_of(*resp, key@) is None,
        },
{
    let path: [&str; 2] = ["streamingData", key];
    assert(path_view(path@) =~= seq!["streamingData"@, key@]);
    match resp.get_path(&path) {
        Some(v) => match v.as_str() {
            Some(s) => Some(s.clone()),
            None => None,
        },
        None => None,
    }
}

/// The details of the video `id` that its player response and initial data give.
pub fn video_details_from(resp: &Json, initial: &Json, id: &String) -> (r: VideoDetails)
    ensures
        details_of(r, *resp, *initial, id@),
{
    let chapters = match get_chapters(resp) {
        Some(c) => c,
        None => Vec::new(),
    };
    let storyboards = match get_storyboards(resp) {
        Some(s) => s,
        None => Vec::new(),
    };
    VideoDetails {
        video_id: id.clone(),
        title: detail_text_exec(resp, "title"),
        description: detail_text_exec(resp, "shortDescription"),
        length_seconds: detail_number_exec(resp, "lengthSeconds"),
        view_count: detail_number_exec(resp, "viewCount"),
        author: get_author(initial, resp),
        likes: get_likes(initial),
        dislikes: get_dislikes(initial),
        chapters,
        storyboards,
    }
}

/// The address of the player script that a watch page names in `"jsUrl":"..."`,
/// on the site's host.
pub open spec fn player_script_url(page: Seq<char>) -> Option<Seq<char>> {
    match find_from(page, "\"jsUrl\":\""@, 0) {
        Some(k) => {
            let b = k + "\"jsUrl\":\""@.len();
            match find_from(page, "\""@, b) {
                Some(e) => Some("https://www.youtube.com"@ + page.subrange(b, e)),
                None => None,
            }
        },
        None => None,
    }
}

/// Finds the address of the player script in a watch page.
pub fn get_html5player(page: &str) -> (r: Option<String>)
    ensures
        match r {
            Some(u) => player_script_url(page@) == Some(u@),
            None => player_script_url(page@) is None,
        },
{
    let s = chars_of(page);
    let _n = s.len();
    let key = chars_of("\"jsUrl\":\"");
    let k = match find_exec(&s, &key, 0) {
        Some(k) => k,
        None => {
            return None;
        },
    };
    let b = k + key.len();
    let quote = chars_of("\"");
    let e = match find_exec(&s, &quote, b) {
        Some(e) => e,
        None => {
            return None;
        },
    };
    let path = sub_chars(&s, b, e);
    let mut out = chars_of("https://www.youtube.com");
    let mut tail = path;
    out.append(&mut tail);
    Some(string_of(out.as_slice()))
}

impl Video {
    /// A video for `url_or_id` with the default options; `VideoNotFound` when it
    /// names no video.
    pub fn new(url_or_id: &str) -> (r: Result<Video, VideoError>)
        ensures
            match video_id_of(url_or_id@) {
                Some(id) => r matches Ok(v) && v.video_id@ == id && is_default_options(v.options),
                None => r == Err::<Video, VideoError>(VideoError::VideoNotFound),
            },
    {
        Video::new_with_options(url_or_id, VideoOptions::default())
    }

    /// A video for `url_or_id` with the given options; `VideoNotFound` when it names
    /// no video.
    pub fn new_with_options(url_or_id: &str, options: VideoOptions) -> (r: Result<
        Video,
        VideoError,
    >)
        ensures
            match video_id_of(url_or_id@) {
                Some(id) => r matches Ok(v) && v.video_id@ == id && v.options == options,
                None => r == Err::<Video, VideoError>(VideoError::VideoNotFound),
            },
    {
        match get_video_id(url_or_id) {
            Some(video_id) => Ok(Video { video_id, options }),
            None => Err(VideoError::VideoNotFound),
        }
    }

    /// The watch address of the video.
    pub fn get_video_url(&self) -> (r: String)
        ensures
            r@ == BASE_URL@ + self.video_id@,
    {
        let mut s = String::from_str(BASE_URL);
        s.append(self.video_id.as_str());
        s
    }

    /// The id of the video.
    pub fn get_video_id(&self) -> (r: String)
        ensures
            r@ == self.video_id@,
    {
        self.video_id.clone()
    }

    /// The information that a player response and the initial data give, once the
    /// response passes the playability checks (`full` also refuses live events not
    /// yet broadcast): the catalog of its streaming data, deciphered with `ops`, and
    /// the details. No manifest format is in it. An empty catalog is
    /// `VideoSourceNotFound`.
    pub fn info_from_response(
        &self,
        player_response: &Json,
        initial_data: &Json,
        ops: &Option<Vec<CipherOp>>,
        full: bool,
    ) -> (r: Result<VideoInfo, VideoError>)
        ensures
            match playability(*player_response, full) {
                Err(e) => r == Err::<VideoInfo, VideoError>(e),
                Ok(_) => if catalog_of(raw_entries(*player_response), ops_view(*ops)).len() == 0 {
                    r == Err::<VideoInfo, VideoError>(VideoError::VideoSourceNotFound)
                } else {
                    r matches Ok(info) && views(info.formats@) == catalog_of(
                        raw_entries(*player_response),
                        ops_view(*ops),
                    ) && details_of(info.video_details, *player_response, *initial_data, self.video_id@)
                        && (match info.hls_manifest_url {
                        Some(u) => manifest_url_of(*player_response, "hlsManifestUrl"@) == Some(u@),
                        None => manifest_url_of(*player_response, "hlsManifestUrl"@) is None,
                    }) && (match info.dash_manifest_url {
                        Some(u) => manifest_url_of(*player_response, "dashManifestUrl"@) == Some(u@),
                        None => manifest_url_of(*player_response, "dashManifestUrl"@) is None,
                    })
                },
            },
    {
        match check_playability(player_response, full) {
            Err(e) => Err(e),
            Ok(()) => {
                let formats = parse_video_formats(player_response, ops);
                if formats.len() == 0 {
                    assert(views(formats@).len() == 0);
                    return Err(VideoError::VideoSourceNotFound);
                }
                let video_details = video_details_from(player_response, initial_data, &self.video_id);
                let hls_manifest_url = manifest_url_exec(player_response, "hlsManifestUrl");
                let dash_manifest_url = manifest_url_exec(player_response, "dashManifestUrl");
                Ok(VideoInfo { formats, video_details, hls_manifest_url, dash_manifest_url })
            },
        }
    }
}

/// Adds the formats of an HLS manifest, when there is one, to the catalog and sorts
/// the whole.
pub fn merge_manifest(info: VideoInfo, manifest: Option<&str>) -> (r: VideoInfo)
    ensures
        exists|m: Seq<VideoFormat>|
            views(m) == match manifest {
                Some(t) => manifest_from(t@, 0),
                None => Seq::empty(),
            } && r.formats@ == sorted_formats(info.formats@ + m),
        r.video_details == info.video_details,
        r.hls_manifest_url == info.hls_manifest_url,
        r.dash_manifest_url == info.dash_manifest_url,
{
    let VideoInfo { formats, video_details, hls_manifest_url, dash_manifest_url } = info;
    let mut formats = formats;
    let mut extra = match manifest {
        Some(t) => parse_manifest(t),
        None => Vec::new(),
    };
    let ghost m = extra@;
    let ghost base = formats@;
    assert(views(Seq::<VideoFormat>::empty()) =~= Seq::empty());
    formats.append(&mut extra);
    sort_formats(&mut formats);
    VideoInfo { formats, video_details, hls_manifest_url, dash_manifest_url }
}

} // verus!
