//! Bilibili: links, the two API calls, and what their answers hold.

use crate::error::{IpcError, IpcErrorKind};
use crate::json::{
    child, entry_of, field, field_of, nth, owned, text, text_at, text_in, unsigned, unsigned_at,
    views, Json, JsonValue,
};
use crate::pattern::{accepted, capture, captured, rejection};
use crate::text::{contains, decimal, occurs, push_decimal, push_str, text_of, view_of};
use crate::video::{format_views, VideoFormat, VideoFormatView, VideoInfo, VideoInfoView};
use std::collections::HashSet;
use vstd::prelude::*;

verus! {

pub struct BilibiliParser;

/// Whether `url` is a Bilibili link.
pub open spec fn handles(url: Seq<char>) -> bool {
    occurs(url, "bilibili.com"@) || occurs(url, "b23.tv"@)
}

impl BilibiliParser {
    /// Whether `url` is a Bilibili link.
    pub fn can_handle(&self, url: &str) -> (r: bool)
        ensures
            r == handles(url@),
    {
        contains(url, "bilibili.com") || contains(url, "b23.tv")
    }
}

/// The name of the quality that Bilibili numbers `id`.
pub open spec fn quality_name(id: u64) -> Seq<char> {
    if id == 127 {
        "8K"@
    } else if id == 126 {
        "Dolby Vision"@
    } else if id == 125 {
        "HDR"@
    } else if id == 120 {
        "4K"@
    } else if id == 116 {
        "1080P60"@
    } else if id == 112 {
        "1080P+"@
    } else if id == 80 {
        "1080P"@
    } else if id == 74 {
        "720P60"@
    } else if id == 64 {
        "720P"@
    } else if id == 32 {
        "480P"@
    } else if id == 16 {
        "360P"@
    } else {
        decimal(id as nat) + "P"@
    }
}

/// The name of the quality that Bilibili numbers `id`: one of the known
/// names, or the number followed by `P`.
pub fn quality_label(id: u64) -> (r: String)
    ensures
        r@ == quality_name(id),
{
    if id == 127 {
        "8K".to_owned()
    } else if id == 126 {
        "Dolby Vision".to_owned()
    } else if id == 125 {
        "HDR".to_owned()
    } else if id == 120 {
        "4K".to_owned()
    } else if id == 116 {
        "1080P60".to_owned()
    } else if id == 112 {
        "1080P+".to_owned()
    } else if id == 80 {
        "1080P".to_owned()
    } else if id == 74 {
        "720P60".to_owned()
    } else if id == 64 {
        "720P".to_owned()
    } else if id == 32 {
        "480P".to_owned()
    } else if id == 16 {
        "360P".to_owned()
    } else {
        let mut out: Vec<char> = Vec::new();
        push_decimal(&mut out, id);
        push_str(&mut out, "P");
        assert(out@ =~= decimal(id as nat) + "P"@);
        crate::text::text_of(&out)
    }
}

/// Whether `url` is a short link, which has to be resolved before anything
/// can be read from it.
pub fn is_short_link(url: &str) -> (r: bool)
    ensures
        r == occurs(url@, "b23.tv"@),
{
    contains(url, "b23.tv")
}

/// What is said of a short link that leads nowhere.
pub open spec fn unresolved_message() -> Seq<char> {
    "Failed to resolve Bilibili short URL"@
}

/// Where a short link leads: to what the answer names as its location.
pub fn short_link_target(location: Option<&str>) -> (r: Result<String, IpcError>)
    ensures
        match r {
            Ok(target) => location matches Some(l) && target@ == l@,
            Err(e) => location is None && e.kind == IpcErrorKind::Internal && e.message@
                == unresolved_message(),
        },
{
    match location {
        Some(l) => Ok(l.to_owned()),
        None => Err(IpcError::internal("Failed to resolve Bilibili short URL")),
    }
}

/// The pattern of a video's id in a link.
pub open spec fn bvid_pattern() -> Seq<char> {
    "(BV[a-zA-Z0-9]+)"@
}

/// What is said of a link that holds no video id.
pub open spec fn no_bvid_message() -> Seq<char> {
    "Could not extract BV ID from Bilibili URL"@
}

/// The video id that the pattern found, or the fault that it found none.
pub fn bvid_from_match(found: Option<String>) -> (r: Result<String, IpcError>)
    ensures
        match r {
            Ok(id) => view_of(found) == Some(id@),
            Err(e) => found is None && e.kind == IpcErrorKind::Validation && e.message@
                == no_bvid_message(),
        },
{
    match found {
        Some(id) => Ok(id),
        None => Err(IpcError::validation("Could not extract BV ID from Bilibili URL")),
    }
}

/// The video id in `url`: what the first group of the id's pattern holds in
/// its leftmost match.
pub fn extract_bvid(url: &str) -> (r: Result<String, IpcError>)
    ensures
        match r {
            Ok(id) => accepted(bvid_pattern()) && captured(bvid_pattern(), url@, 1) == Some(id@),
            Err(e) => if accepted(bvid_pattern()) {
                captured(bvid_pattern(), url@, 1) is None && e.kind == IpcErrorKind::Validation
                    && e.message@ == no_bvid_message()
            } else {
                e.kind == IpcErrorKind::Internal && e.message@ == rejection(bvid_pattern())
            },
        },
{
    match capture("(BV[a-zA-Z0-9]+)", url, 1) {
        Ok(found) => bvid_from_match(found),
        Err(message) => Err(IpcError::internal(message.as_str())),
    }
}

/// Where the API tells of the video `bvid`.
pub fn view_url(bvid: &str) -> (r: String)
    ensures
        r@ == "https://api.bilibili.com/x/web-interface/view?bvid="@ + bvid@,
{
    "https://api.bilibili.com/x/web-interface/view?bvid=".to_owned().concat(bvid)
}

/// Where the API tells how to play part `cid` of the video `bvid`.
pub fn play_url(bvid: &str, cid: u64) -> (r: String)
    ensures
        r@ == "https://api.bilibili.com/x/player/playurl?bvid="@ + bvid@ + "&cid="@ + decimal(
            cid as nat,
        ) + "&fnval=16&fourk=1"@,
{
    let mut out: Vec<char> = Vec::new();
    push_str(&mut out, "https://api.bilibili.com/x/player/playurl?bvid=");
    push_str(&mut out, bvid);
    push_str(&mut out, "&cid=");
    push_decimal(&mut out, cid);
    push_str(&mut out, "&fnval=16&fourk=1");
    assert(out@ =~= "https://api.bilibili.com/x/player/playurl?bvid="@ + bvid@ + "&cid="@
        + decimal(cid as nat) + "&fnval=16&fourk=1"@);
    text_of(&out)
}

/// What the API's first answer says of a video.
#[derive(Debug, PartialEq, Eq)]
pub struct ViewData {
    pub title: String,
    pub cover_url: Option<String>,
    pub duration: Option<u64>,
    pub cid: u64,
}

pub ghost struct ViewDataView {
    pub title: Seq<char>,
    pub cover_url: Option<Seq<char>>,
    pub duration: Option<u64>,
    pub cid: u64,
}

impl View for ViewData {
    type V = ViewDataView;

    open spec fn view(&self) -> ViewDataView {
        ViewDataView {
            title: self.title@,
            cover_url: view_of(self.cover_url),
            duration: self.duration,
            cid: self.cid,
        }
    }
}

/// What `answer` says of a video, or why it says nothing: the title under
/// `title` (or a stock title), the cover under `pic`, the length under
/// `duration` and the part under `cid`, all inside `data`.
pub open spec fn view_data(answer: JsonValue) -> Result<ViewDataView, Seq<char>> {
    match field(answer, "data"@) {
        None => Err("Failed to get video info from Bilibili API"@),
        Some(data) => match unsigned_at(data, "cid"@) {
            None => Err("Failed to get cid from Bilibili video info"@),
            Some(cid) => Ok(
                ViewDataView {
                    title: match text_at(data, "title"@) {
                        Some(t) => t,
                        None => "Bilibili Video"@,
                    },
                    cover_url: text_at(data, "pic"@),
                    duration: unsigned_at(data, "duration"@),
                    cid,
                },
            ),
        },
    }
}

/// Reads the API's first answer.
pub fn read_view(answer: &Json) -> (r: Result<ViewData, IpcError>)
    ensures
        match r {
            Ok(d) => view_data(answer@) == Ok::<ViewDataView, Seq<char>>(d@),
            Err(e) => e.kind == IpcErrorKind::Internal && view_data(answer@) == Err::<
                ViewDataView,
                Seq<char>,
            >(e.message@),
        },
{
    let data: Option<&Json> = answer.get("data");
    if data.is_none() {
        return Err(IpcError::internal("Failed to get video info from Bilibili API"));
    }
    let title: String = match text(child(data, "title")) {
        Some(t) => t.to_owned(),
        None => "Bilibili Video".to_owned(),
    };
    let cover_url: Option<String> = owned(text(child(data, "pic")));
    let duration: Option<u64> = unsigned(child(data, "duration"));
    match unsigned(child(data, "cid")) {
        Some(cid) => Ok(ViewData { title, cover_url, duration, cid }),
        None => Err(IpcError::internal("Failed to get cid from Bilibili video info")),
    }
}

/// The quality that a DASH entry is numbered with; 0 where it has no number.
pub open spec fn quality_id(video: JsonValue) -> u64 {
    match unsigned_at(video, "id"@) {
        Some(n) => n,
        None => 0,
    }
}

/// Whether one of the first `upto` entries is numbered `quality`.
pub open spec fn has_quality(videos: Seq<JsonValue>, upto: int, quality: u64) -> bool
    decreases upto,
{
    upto > 0 && (quality_id(videos[upto - 1]) == quality || has_quality(
        videos,
        upto - 1,
        quality,
    ))
}

/// The format that a DASH entry stands for, where it has an address.
pub open spec fn dash_format(video: JsonValue, audio: Option<Seq<char>>) -> Option<
    VideoFormatView,
> {
    match text_at(video, "baseUrl"@) {
        Some(url) => Some(
            VideoFormatView {
                quality: quality_name(quality_id(video)),
                url,
                audio_url: audio,
                size: None,
            },
        ),
        None => None,
    }
}

/// The formats of the first `upto` DASH entries: for each quality the first
/// entry that is numbered with it counts, and it gives a format where it has
/// an address.
pub open spec fn dash_formats(videos: Seq<JsonValue>, audio: Option<Seq<char>>, upto: int) -> Seq<
    VideoFormatView,
>
    decreases upto,
{
    if upto <= 0 {
        Seq::empty()
    } else {
        let before = dash_formats(videos, audio, upto - 1);
        let video = videos[upto - 1];
        if has_quality(videos, upto - 1, quality_id(video)) {
            before
        } else {
            match dash_format(video, audio) {
                Some(f) => before.push(f),
                None => before,
            }
        }
    }
}

/// The format that an entry of the plain list stands for, where it has an
/// address.
pub open spec fn durl_format(entry: JsonValue) -> Option<VideoFormatView> {
    match text_at(entry, "url"@) {
        Some(url) => Some(
            VideoFormatView {
                quality: "default"@,
                url,
                audio_url: None,
                size: unsigned_at(entry, "size"@),
            },
        ),
        None => None,
    }
}

/// The formats of the first `upto` entries of the plain list.
pub open spec fn durl_formats(entries: Seq<JsonValue>, upto: int) -> Seq<VideoFormatView>
    decreases upto,
{
    if upto <= 0 {
        Seq::empty()
    } else {
        let before = durl_formats(entries, upto - 1);
        match durl_format(entries[upto - 1]) {
            Some(f) => before.push(f),
            None => before,
        }
    }
}

/// The items of `doc`, where it is an array; none where it is not.
pub open spec fn items_of(doc: Option<JsonValue>) -> Seq<JsonValue> {
    match doc {
        Some(JsonValue::Array(items)) => items,
        _ => Seq::empty(),
    }
}

/// The formats that the DASH part of `data` offers.
pub open spec fn dash_offer(data: JsonValue) -> Seq<VideoFormatView> {
    let dash = field(data, "dash"@);
    let audio = text_in(field_of(entry_of(field_of(dash, "audio"@), 0), "baseUrl"@));
    let videos = items_of(field_of(dash, "video"@));
    dash_formats(videos, audio, videos.len() as int)
}

/// The formats that the plain list of `data` offers.
pub open spec fn durl_offer(data: JsonValue) -> Seq<VideoFormatView> {
    let entries = items_of(field(data, "durl"@));
    durl_formats(entries, entries.len() as int)
}

/// The formats that `answer` offers, or why it offers none: those of the
/// DASH part, or where it gives none, those of the plain list.
pub open spec fn play_formats(answer: JsonValue) -> Result<Seq<VideoFormatView>, Seq<char>> {
    match field(answer, "data"@) {
        None => Err("Failed to get play URL data from Bilibili API"@),
        Some(data) => {
            let formats = if dash_offer(data).len() > 0 {
                dash_offer(data)
            } else {
                durl_offer(data)
            };
            if formats.len() == 0 {
                Err("No playable video formats found"@)
            } else {
                Ok(formats)
            }
        },
    }
}

/// The formats of the DASH entries `videos`, each with the sound at `audio`.
pub fn read_dash(videos: &Vec<Json>, audio: Option<&str>) -> (r: Vec<VideoFormat>)
    ensures
        format_views(r@) == dash_formats(
            views(videos@),
            crate::json::slice_in(audio),
            videos.len() as int,
        ),
{
    let ghost vs = views(videos@);
    let ghost au = crate::json::slice_in(audio);
    let mut formats: Vec<VideoFormat> = Vec::new();
    let mut seen: HashSet<u64> = HashSet::new();
    let mut i: usize = 0;
    assert(format_views(formats@) =~= dash_formats(vs, au, 0));
    while i < videos.len()
        invariant
            i <= videos.len(),
            vs == views(videos@),
            au == crate::json::slice_in(audio),
            format_views(formats@) == dash_formats(vs, au, i as int),
            forall|q: u64| seen@.contains(q) <==> has_quality(vs, i as int, q),
        decreases videos.len() - i,
    {
        let video: &Json = &videos[i];
        assert(video@ == vs[i as int]);
        let id: u64 = match unsigned(video.get("id")) {
            Some(n) => n,
            None => 0,
        };
        let fresh: bool = seen.insert(id);
        if fresh {
            match text(video.get("baseUrl")) {
                Some(url) => {
                    let format = VideoFormat {
                        quality: quality_label(id),
                        url: url.to_owned(),
                        audio_url: owned(audio),
                        size: None,
                    };
                    formats.push(format);
                    assert(format_views(formats@) =~= dash_formats(vs, au, i as int).push(
                        format@,
                    ));
                },
                None => {},
            }
        }
        i = i + 1;
    }
    formats
}

/// The formats of the entries `entries` of the plain list.
pub fn read_durl(entries: &Vec<Json>) -> (r: Vec<VideoFormat>)
    ensures
        format_views(r@) == durl_formats(views(entries@), entries.len() as int),
{
    let ghost es = views(entries@);
    let mut formats: Vec<VideoFormat> = Vec::new();
    let mut i: usize = 0;
    assert(format_views(formats@) =~= durl_formats(es, 0));
    while i < entries.len()
        invariant
            i <= entries.len(),
            es == views(entries@),
            format_views(formats@) == durl_formats(es, i as int),
        decreases entries.len() - i,
    {
        let entry: &Json = &entries[i];
        assert(entry@ == es[i as int]);
        match text(entry.get("url")) {
            Some(url) => {
                let format = VideoFormat {
                    quality: "default".to_owned(),
                    url: url.to_owned(),
                    audio_url: None,
                    size: unsigned(entry.get("size")),
                };
                formats.push(format);
                assert(format_views(formats@) =~= durl_formats(es, i as int).push(format@));
            },
            None => {},
        }
        i = i + 1;
    }
    formats
}

/// Reads the API's second answer.
pub fn read_formats(answer: &Json) -> (r: Result<Vec<VideoFormat>, IpcError>)
    ensures
        match r {
            Ok(formats) => play_formats(answer@) == Ok::<Seq<VideoFormatView>, Seq<char>>(
                format_views(formats@),
            ),
            Err(e) => e.kind == IpcErrorKind::Internal && play_formats(answer@) == Err::<
                Seq<VideoFormatView>,
                Seq<char>,
            >(e.message@),
        },
{
    let data: Option<&Json> = answer.get("data");
    if data.is_none() {
        return Err(IpcError::internal("Failed to get play URL data from Bilibili API"));
    }
    let dash: Option<&Json> = child(data, "dash");
    let audio: Option<&str> = text(child(nth(child(dash, "audio"), 0), "baseUrl"));
    let mut formats: Vec<VideoFormat> = match child(dash, "video") {
        Some(list) => match list.as_array() {
            Some(videos) => read_dash(videos, audio),
            None => Vec::new(),
        },
        None => Vec::new(),
    };
    assert(format_views(formats@) =~= dash_offer(data.unwrap()@));
    if formats.len() == 0 {
        formats = match child(data, "durl") {
            Some(list) => match list.as_array() {
                Some(entries) => read_durl(entries),
                None => Vec::new(),
            },
            None => Vec::new(),
        };
        assert(format_views(formats@) =~= durl_offer(data.unwrap()@));
    }
    if formats.len() == 0 {
        return Err(IpcError::internal("No playable video formats found"));
    }
    Ok(formats)
}

/// What is known of a video once both answers are read.
pub fn video_info(view: ViewData, formats: Vec<VideoFormat>) -> (r: VideoInfo)
    ensures
        r@ == (VideoInfoView {
            title: view@.title,
            cover_url: view@.cover_url,
            duration: view@.duration,
            platform: "bilibili"@,
            formats: format_views(formats@),
        }),
{
    VideoInfo {
        title: view.title,
        cover_url: view.cover_url,
        duration: view.duration,
        platform: "bilibili".to_owned(),
        formats,
    }
}

} // verus!
