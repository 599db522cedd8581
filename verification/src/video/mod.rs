//! Video links: what a share text points at, and what a site says of it.

pub mod bilibili;
pub mod douyin;
pub mod downloader;

use crate::pattern::{accepted, capture, captured};
use crate::text::{chars_of, strip_end, strip_end_chars, text_of, trim_chars, trimmed, view_of};
use vstd::prelude::*;

verus! {

/// One way to fetch a video.
#[derive(Debug, PartialEq, Eq)]
pub struct VideoFormat {
    pub quality: String,
    pub url: String,
    pub audio_url: Option<String>,
    pub size: Option<u64>,
}

/// What a site says of a video.
#[derive(Debug, PartialEq, Eq)]
pub struct VideoInfo {
    pub title: String,
    pub cover_url: Option<String>,
    pub duration: Option<u64>,
    pub platform: String,
    pub formats: Vec<VideoFormat>,
}

/// How a download has ended, or that it has not.
#[derive(Debug, PartialEq, Eq)]
pub enum DownloadStatus {
    Downloading,
    Completed,
    Failed(String),
    Cancelled,
}

/// How far a download has come.
#[derive(Debug, PartialEq, Eq)]
pub struct DownloadProgress {
    pub task_id: String,
    pub downloaded: u64,
    pub total: Option<u64>,
    pub speed: u64,
    pub status: DownloadStatus,
}

pub ghost struct VideoFormatView {
    pub quality: Seq<char>,
    pub url: Seq<char>,
    pub audio_url: Option<Seq<char>>,
    pub size: Option<u64>,
}

pub ghost struct VideoInfoView {
    pub title: Seq<char>,
    pub cover_url: Option<Seq<char>>,
    pub duration: Option<u64>,
    pub platform: Seq<char>,
    pub formats: Seq<VideoFormatView>,
}

pub ghost enum DownloadStatusView {
    Downloading,
    Completed,
    Failed(Seq<char>),
    Cancelled,
}

pub ghost struct DownloadProgressView {
    pub task_id: Seq<char>,
    pub downloaded: u64,
    pub total: Option<u64>,
    pub speed: u64,
    pub status: DownloadStatusView,
}

impl View for VideoFormat {
    type V = VideoFormatView;

    open spec fn view(&self) -> VideoFormatView {
        VideoFormatView {
            quality: self.quality@,
            url: self.url@,
            audio_url: view_of(self.audio_url),
            size: self.size,
        }
    }
}

/// The views of `formats`, in order.
pub open spec fn format_views(formats: Seq<VideoFormat>) -> Seq<VideoFormatView> {
    Seq::new(formats.len(), |i: int| formats[i]@)
}

impl View for VideoInfo {
    type V = VideoInfoView;

    open spec fn view(&self) -> VideoInfoView {
        VideoInfoView {
            title: self.title@,
            cover_url: view_of(self.cover_url),
            duration: self.duration,
            platform: self.platform@,
            formats: format_views(self.formats@),
        }
    }
}

impl View for DownloadStatus {
    type V = DownloadStatusView;

    open spec fn view(&self) -> DownloadStatusView {
        match self {
            DownloadStatus::Downloading => DownloadStatusView::Downloading,
            DownloadStatus::Completed => DownloadStatusView::Completed,
            DownloadStatus::Failed(reason) => DownloadStatusView::Failed(reason@),
            DownloadStatus::Cancelled => DownloadStatusView::Cancelled,
        }
    }
}

impl View for DownloadProgress {
    type V = DownloadProgressView;

    open spec fn view(&self) -> DownloadProgressView {
        DownloadProgressView {
            task_id: self.task_id@,
            downloaded: self.downloaded,
            total: self.total,
            speed: self.speed,
            status: self.status@,
        }
    }
}

/// The site that serves a link.
#[derive(Clone, Copy, Debug, PartialEq, Eq, Structural)]
pub enum Platform {
    Douyin,
    Bilibili,
}

/// The site that serves `url`: Douyin where its parser takes the link,
/// else Bilibili where that one does.
pub open spec fn platform_of(url: Seq<char>) -> Option<Platform> {
    if douyin::handles(url) {
        Some(Platform::Douyin)
    } else if bilibili::handles(url) {
        Some(Platform::Bilibili)
    } else {
        None
    }
}

/// The site whose parser takes `url`, Douyin asked first.
pub fn select_platform(url: &str) -> (r: Option<Platform>)
    ensures
        r == platform_of(url@),
{
    if douyin::DouyinParser.can_handle(url) {
        Some(Platform::Douyin)
    } else if bilibili::BilibiliParser.can_handle(url) {
        Some(Platform::Bilibili)
    } else {
        None
    }
}

/// What is said of a link that no parser takes.
pub open spec fn unsupported_message() -> Seq<char> {
    "Unsupported video URL. Currently supported: Douyin, Bilibili"@
}

/// The pattern of a link inside a share text: `http` or `https`, then all
/// that follows up to white space, a CJK ideograph or a full-width sign.
pub open spec fn link_pattern() -> Seq<char> {
    r"https?://[^\s\u{4e00}-\u{9fff}\u{ff01}-\u{ff5e}]+"@
}

/// The signs that close a sentence and not a link.
pub open spec fn closing_signs() -> Seq<char> {
    ",.;:!?，。；：！？)）】》"@
}

/// The link in `found`, without the closing signs at its end.
pub open spec fn link_of(found: Option<Seq<char>>) -> Option<Seq<char>> {
    match found {
        Some(s) => Some(strip_end(s, closing_signs())),
        None => None,
    }
}

/// Takes the closing signs from the end of what the pattern found.
pub fn link_from_match(found: Option<String>) -> (r: Option<String>)
    ensures
        view_of(r) == link_of(view_of(found)),
{
    match found {
        Some(s) => {
            let signs: Vec<char> = chars_of(",.;:!?，。；：！？)）】》");
            let stripped: Vec<char> = strip_end_chars(&chars_of(s.as_str()), &signs);
            Some(text_of(&stripped))
        },
        None => None,
    }
}

/// The first link in `text`, without the closing signs at its end.
pub fn extract_url_from_text(text: &str) -> (r: Option<String>)
    ensures
        view_of(r) == if accepted(link_pattern()) {
            link_of(captured(link_pattern(), text@, 0))
        } else {
            None
        },
{
    match capture(r"https?://[^\s\u{4e00}-\u{9fff}\u{ff01}-\u{ff5e}]+", text, 0) {
        Ok(found) => link_from_match(found),
        Err(_) => None,
    }
}

/// The link that `input` asks for: the first link in it, or where it holds
/// none, all of it but the white space at its ends.
pub fn requested_url(input: &str) -> (r: String)
    ensures
        r@ == match (if accepted(link_pattern()) {
            link_of(captured(link_pattern(), input@, 0))
        } else {
            None
        }) {
            Some(link) => link,
            None => trimmed(input@),
        },
{
    match extract_url_from_text(input) {
        Some(link) => link,
        None => text_of(&trim_chars(&chars_of(input))),
    }
}

} // verus!
