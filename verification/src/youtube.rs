//! The channel's catalog as the video service lists it, and the requests
//! with which a clip and its cover are fetched.

use vstd::prelude::*;
use crate::request::{Origin, Source};

verus! {

/// How many results a listing holds in all.
#[derive(Debug)]
pub struct PageInfo {
    pub total_results: u32,
}

/// What a search result points at. Only a video has a `videoId`: a channel or
/// a playlist among the results has none.
#[allow(non_snake_case)]
#[derive(Debug)]
pub struct VideoId {
    pub videoId: Option<String>,
}

/// One preview image.
#[derive(Debug)]
pub struct Thumbnail {
    pub url: String,
    pub width: Option<u32>,
    pub height: Option<u32>,
}

/// The preview images of a video, by size.
#[derive(Debug)]
pub struct Thumbnails {
    pub default: Thumbnail,
    pub medium: Thumbnail,
    pub high: Thumbnail,
}

/// What the listing tells about a video.
#[allow(non_snake_case)]
#[derive(Debug)]
pub struct VideoSnippet {
    pub title: String,
    pub description: String,
    pub thumbnails: Thumbnails,
    pub publishTime: String,
}

/// One entry of the listing.
#[derive(Debug)]
pub struct VideoItem {
    pub id: VideoId,
    pub snippet: VideoSnippet,
}

/// The listing: the channel's entries, newest first.
#[derive(Debug)]
pub struct VideoListResponse {
    pub items: Vec<VideoItem>,
}

/// What the reconciliation reads of a catalog entry.
pub struct CatalogItem {
    pub video_id: Option<Seq<char>>,
    pub title: Seq<char>,
    pub publish_time: Seq<char>,
}

impl View for VideoItem {
    type V = CatalogItem;

    open spec fn view(&self) -> CatalogItem {
        CatalogItem {
            video_id: match self.id.videoId {
                Some(id) => Some(id@),
                None => None,
            },
            title: self.snippet.title@,
            publish_time: self.snippet.publishTime@,
        }
    }
}

impl DeepView for VideoItem {
    type V = CatalogItem;

    open spec fn deep_view(&self) -> CatalogItem {
        self@
    }
}

impl View for VideoListResponse {
    type V = Seq<CatalogItem>;

    open spec fn view(&self) -> Seq<CatalogItem> {
        self.items.deep_view()
    }
}

/// The address at which a video is watched.
pub open spec fn watch_address(video_code: Seq<char>) -> Seq<char> {
    "https://www.youtube.com/watch?v="@ + video_code
}

/// The address at which the video with this code is watched.
pub fn watch_url(video_code: &str) -> (url: String)
    ensures
        url@ == watch_address(video_code@),
{
    let mut url = String::from_str("https://www.youtube.com/watch?v=");
    url.append(video_code);
    url
}

/// What is needed to reach the channel's listing.
pub struct Config {
    pub api_key: String,
    pub channel_id: String,
    pub sample_file: String,
}

/// The address at which a channel's newest fifty entries are listed, newest
/// first.
pub open spec fn search_address(api_key: Seq<char>, channel_id: Seq<char>) -> Seq<char> {
    "https://www.googleapis.com/youtube/v3/search?key="@ + api_key + "&channelId="@ + channel_id
        + "&part=snippet,id&order=date&maxResults=50"@
}

/// Where the catalog is read from: the sample file when `debug` is set, else
/// the channel's listing.
pub fn list(config: &Config, debug: bool) -> (source: Source)
    ensures
        debug ==> source@ == (Origin::Sample { file: config.sample_file@ }),
        !debug ==> source@ == (Origin::Remote {
            url: search_address(config.api_key@, config.channel_id@),
        }),
{
    if debug {
        Source::Sample { file: config.sample_file.clone() }
    } else {
        let mut url = String::from_str("https://www.googleapis.com/youtube/v3/search?key=");
        url.append(config.api_key.as_str());
        url.append("&channelId=");
        url.append(config.channel_id.as_str());
        url.append("&part=snippet,id&order=date&maxResults=50");
        Source::Remote { url }
    }
}

/// One download of a video's sound, cut to a clip.
#[derive(Debug)]
pub struct ClipRequest {
    pub url: String,
    pub arguments: Vec<String>,
    pub folder: String,
}

/// The arguments that make the downloader keep the sound only, as mp3, cut
/// it from `start_time` to `end_time`, and name the file after `filename`.
pub open spec fn clip_arguments(filename: Seq<char>, start_time: Seq<char>, end_time: Seq<char>)
    -> Seq<Seq<char>> {
    seq![
        "--extract-audio"@,
        "--audio-format"@,
        "mp3"@,
        "--postprocessor-args"@,
        "-ss "@ + start_time + " -to "@ + end_time,
        "-o"@,
        filename + ".%(ext)s"@,
    ]
}

/// The download of the clip of one video into `video_folder`.
pub fn download_video(
    video_code: &str,
    filename: &str,
    start_time: &str,
    end_time: &str,
    video_folder: &str,
) -> (request: ClipRequest)
    ensures
        request.url@ == watch_address(video_code@),
        request.arguments.deep_view() == clip_arguments(filename@, start_time@, end_time@),
        request.folder@ == video_folder@,
{
    let mut cut = String::from_str("-ss ");
    cut.append(start_time);
    cut.append(" -to ");
    cut.append(end_time);
    let mut output = String::from_str(filename);
    output.append(".%(ext)s");
    let mut arguments: Vec<String> = Vec::new();
    arguments.push(String::from_str("--extract-audio"));
    arguments.push(String::from_str("--audio-format"));
    arguments.push(String::from_str("mp3"));
    arguments.push(String::from_str("--postprocessor-args"));
    arguments.push(cut);
    arguments.push(String::from_str("-o"));
    arguments.push(output);
    ClipRequest { url: watch_url(video_code), arguments, folder: String::from_str(video_folder) }
}

/// One download of a video's cover image.
#[derive(Debug)]
pub struct CoverRequest {
    pub url: String,
    pub file_path: String,
}

/// The address of a video's largest cover image.
pub open spec fn cover_address(video_code: Seq<char>) -> Seq<char> {
    "https://i3.ytimg.com/vi/"@ + video_code + "/maxresdefault.jpg"@
}

/// The download of the cover of one video. The image is stored under the
/// clip's name, which is put directly behind `video_folder`.
pub fn download_video_cover(video_code: &str, video_title: &str, video_folder: &str) -> (request:
    CoverRequest)
    ensures
        request.url@ == cover_address(video_code@),
        request.file_path@ == video_folder@ + video_title@ + ".jpg"@,
{
    let mut url = String::from_str("https://i3.ytimg.com/vi/");
    url.append(video_code);
    url.append("/maxresdefault.jpg");
    let mut file_path = String::from_str(video_folder);
    file_path.append(video_title);
    file_path.append(".jpg");
    CoverRequest { url, file_path }
}

} // verus!
