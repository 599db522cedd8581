//! Douyin: links, the share page, and what its embedded data holds.

use crate::error::{IpcError, IpcErrorKind};
use crate::json::{
    child, entry_of, field, field_of, member_views, nth, owned, parse, parsed, refusal, text,
    text_in, unsigned, unsigned_in, Json, JsonValue, MemberValue,
};
use crate::pattern::{accepted, capture, captured, rejection};
use crate::text::{chars_of, contains, occurs, push_str, replace_all, replaced, text_of, view_of};
use crate::video::{format_views, VideoFormat, VideoFormatView, VideoInfo, VideoInfoView};
use vstd::prelude::*;

verus! {

pub struct DouyinParser;

/// Whether `url` is a Douyin link.
pub open spec fn handles(url: Seq<char>) -> bool {
    occurs(url, "douyin.com"@) || occurs(url, "douyinvod.com"@) || occurs(url, "iesdouyin.com"@)
}

impl DouyinParser {
    /// Whether `url` is a Douyin link.
    pub fn can_handle(&self, url: &str) -> (r: bool)
        ensures
            r == handles(url@),
    {
        contains(url, "douyin.com") || contains(url, "douyinvod.com") || contains(
            url,
            "iesdouyin.com",
        )
    }
}

/// Whether `url` points at the video file itself.
pub open spec fn is_direct(url: Seq<char>) -> bool {
    (occurs(url, "douyinvod.com"@) && occurs(url, "/video/"@)) || occurs(url, "mime_type=video"@)
}

/// Whether `url` points at the video file itself, on the CDN, and not at a
/// page.
pub fn is_direct_cdn_url(url: &str) -> (r: bool)
    ensures
        r == is_direct(url@),
{
    (contains(url, "douyinvod.com") && contains(url, "/video/")) || contains(
        url,
        "mime_type=video",
    )
}

/// What is known of a link that points at the video file itself.
pub fn direct_info(url: &str) -> (r: VideoInfo)
    ensures
        r@ == (VideoInfoView {
            title: "Douyin Video"@,
            cover_url: None,
            duration: None,
            platform: "douyin"@,
            formats: seq![
                VideoFormatView { quality: "original"@, url: url@, audio_url: None, size: None },
            ],
        }),
{
    let mut formats: Vec<VideoFormat> = Vec::new();
    formats.push(
        VideoFormat {
            quality: "original".to_owned(),
            url: url.to_owned(),
            audio_url: None,
            size: None,
        },
    );
    let r = VideoInfo {
        title: "Douyin Video".to_owned(),
        cover_url: None,
        duration: None,
        platform: "douyin".to_owned(),
        formats,
    };
    assert(r@.formats =~= seq![
        VideoFormatView { quality: "original"@, url: url@, audio_url: None, size: None },
    ]);
    r
}

/// Whether `url` is a short link, which has to be resolved before anything
/// can be read from it.
pub fn is_short_link(url: &str) -> (r: bool)
    ensures
        r == occurs(url@, "v.douyin.com"@),
{
    contains(url, "v.douyin.com")
}

/// The pattern of a video's id in the path of a link.
pub open spec fn path_id_pattern() -> Seq<char> {
    r"/(?:video|note)/(\d+)"@
}

/// The pattern of a video's id in the query of a link.
pub open spec fn query_id_pattern() -> Seq<char> {
    r"modal_id=(\d+)"@
}

/// What is said of a link that holds no video id.
pub open spec fn no_id_message() -> Seq<char> {
    "Could not extract video ID from Douyin URL"@
}

/// The video id that the second pattern found, or the fault that neither
/// found one.
pub fn id_from_match(found: Option<String>) -> (r: Result<String, IpcError>)
    ensures
        match r {
            Ok(id) => view_of(found) == Some(id@),
            Err(e) => found is None && e.kind == IpcErrorKind::Validation && e.message@
                == no_id_message(),
        },
{
    match found {
        Some(id) => Ok(id),
        None => Err(IpcError::validation("Could not extract video ID from Douyin URL")),
    }
}

/// The video id in `text`, or why there is none: what the path pattern
/// finds, else what the query pattern finds, else the fault that neither
/// found an id. A pattern that the engine refuses is an internal fault, and
/// the query pattern is asked only where the path pattern found nothing.
pub open spec fn video_id(text: Seq<char>) -> Result<Seq<char>, (IpcErrorKind, Seq<char>)> {
    if !accepted(path_id_pattern()) {
        Err((IpcErrorKind::Internal, rejection(path_id_pattern())))
    } else {
        match captured(path_id_pattern(), text, 1) {
            Some(id) => Ok(id),
            None => if !accepted(query_id_pattern()) {
                Err((IpcErrorKind::Internal, rejection(query_id_pattern())))
            } else {
                match captured(query_id_pattern(), text, 1) {
                    Some(id) => Ok(id),
                    None => Err((IpcErrorKind::Validation, no_id_message())),
                }
            },
        }
    }
}

/// The video id in `text`: the digits behind `/video/` or `/note/`, or where
/// there are none, those behind `modal_id=`.
pub fn extract_video_id(text: &str) -> (r: Result<String, IpcError>)
    ensures
        match r {
            Ok(id) => video_id(text@) == Ok::<Seq<char>, (IpcErrorKind, Seq<char>)>(id@),
            Err(e) => video_id(text@) == Err::<Seq<char>, (IpcErrorKind, Seq<char>)>(
                (e.kind, e.message@),
            ),
        },
{
    match capture(r"/(?:video|note)/(\d+)", text, 1) {
        Err(message) => Err(IpcError::internal(message.as_str())),
        Ok(Some(id)) => Ok(id),
        Ok(None) => match capture(r"modal_id=(\d+)", text, 1) {
            Err(message) => Err(IpcError::internal(message.as_str())),
            Ok(found) => id_from_match(found),
        },
    }
}

/// The share page of the video `video_id`.
pub fn share_url(video_id: &str) -> (r: String)
    ensures
        r@ == "https://www.iesdouyin.com/share/video/"@ + video_id@,
{
    "https://www.iesdouyin.com/share/video/".to_owned().concat(video_id)
}

/// The pattern of the data that the share page embeds.
pub open spec fn router_data_pattern() -> Seq<char> {
    r"_ROUTER_DATA\s*=\s*(\{.+\})\s*</script>"@
}

/// What is said of a share page without embedded data.
pub open spec fn no_router_data_message() -> Seq<char> {
    "Could not find _ROUTER_DATA in Douyin share page"@
}

/// How the message begins when the embedded data is no JSON document.
pub open spec fn bad_router_data_prefix() -> Seq<char> {
    "Failed to parse _ROUTER_DATA: "@
}

/// The document that the share page embeds, given what the pattern found;
/// or why there is none.
pub open spec fn router_data_in(found: Option<Seq<char>>) -> Result<JsonValue, Seq<char>> {
    match found {
        None => Err(no_router_data_message()),
        Some(s) => match parsed(s) {
            Some(doc) => Ok(doc),
            None => Err(bad_router_data_prefix() + refusal(s)),
        },
    }
}

/// The document that the share page `html` embeds, or why there is none.
pub open spec fn router_data(html: Seq<char>) -> Result<JsonValue, Seq<char>> {
    if accepted(router_data_pattern()) {
        router_data_in(captured(router_data_pattern(), html, 1))
    } else {
        Err(rejection(router_data_pattern()))
    }
}

/// The document in what the pattern found, or the fault that it found
/// nothing or no JSON document.
pub fn router_data_from_match(found: Option<String>) -> (r: Result<Json, IpcError>)
    ensures
        match r {
            Ok(doc) => router_data_in(view_of(found)) == Ok::<JsonValue, Seq<char>>(doc@),
            Err(e) => e.kind == IpcErrorKind::Internal && router_data_in(view_of(found)) == Err::<
                JsonValue,
                Seq<char>,
            >(e.message@),
        },
{
    match found {
        None => Err(IpcError::internal("Could not find _ROUTER_DATA in Douyin share page")),
        Some(s) => match parse(s.as_str()) {
            Ok(doc) => Ok(doc),
            Err(fault) => {
                let message: String = "Failed to parse _ROUTER_DATA: ".to_owned().concat(
                    fault.message.as_str(),
                );
                Err(IpcError::internal(message.as_str()))
            },
        },
    }
}

/// The data that the share page `html` embeds.
pub fn extract_router_data(html: &str) -> (r: Result<Json, IpcError>)
    ensures
        match r {
            Ok(doc) => router_data(html@) == Ok::<JsonValue, Seq<char>>(doc@),
            Err(e) => e.kind == IpcErrorKind::Internal && router_data(html@) == Err::<
                JsonValue,
                Seq<char>,
            >(e.message@),
        },
{
    match capture(r"_ROUTER_DATA\s*=\s*(\{.+\})\s*</script>", html, 1) {
        Err(message) => Err(IpcError::internal(message.as_str())),
        Ok(found) => router_data_from_match(found),
    }
}

/// Whether a member of the loader data may hold the video's page.
pub open spec fn is_page_key(key: Seq<char>) -> bool {
    occurs(key, "video"@) && occurs(key, "page"@)
}

/// The position at or after `start` of the first member whose key may hold
/// the video's page, or -1.
pub open spec fn page_member_from(members: Seq<MemberValue>, start: int) -> int
    decreases members.len() - start,
{
    if start < 0 || start >= members.len() {
        -1
    } else if is_page_key(members[start].key) {
        start
    } else {
        page_member_from(members, start + 1)
    }
}

/// The video's entry in the embedded data: the first listed item of the
/// first member of `loaderData` whose key may hold the video's page.
pub open spec fn share_item(router: JsonValue) -> Option<JsonValue> {
    match field(router, "loaderData"@) {
        Some(JsonValue::Object(members)) => {
            let i = page_member_from(members, 0);
            if 0 <= i < members.len() {
                entry_of(
                    field_of(field(members[i].value, "videoInfoRes"@), "item_list"@),
                    0,
                )
            } else {
                None
            }
        },
        _ => None,
    }
}

/// The video's entry in the embedded data.
pub fn find_item(router: &Json) -> (r: Option<&Json>)
    ensures
        crate::json::value_in(r) == share_item(router@),
{
    match router.get("loaderData") {
        Some(loader) => match loader.as_object() {
            Some(members) => {
                let ghost ms = member_views(members@);
                let mut i: usize = 0;
                while i < members.len()
                    invariant
                        i <= members.len(),
                        ms == member_views(members@),
                        field(router@, "loaderData"@) == Some(JsonValue::Object(ms)),
                        page_member_from(ms, 0) == page_member_from(ms, i as int),
                    decreases members.len() - i,
                {
                    let key: &str = members[i].key.as_str();
                    assert(ms[i as int] == members@[i as int]@);
                    if contains(key, "video") && contains(key, "page") {
                        let value: &Json = &members[i].value;
                        assert(ms[i as int].value == value@);
                        let found: Option<&Json> = nth(
                            child(value.get("videoInfoRes"), "item_list"),
                            0,
                        );
                        return found;
                    }
                    i = i + 1;
                }
                None
            },
            None => None,
        },
        None => None,
    }
}

/// The longer side of a picture of `width` by `height`.
pub open spec fn longer_side(width: u64, height: u64) -> u64 {
    if width >= height {
        width
    } else {
        height
    }
}

/// One quality on offer: how it is shown, and how it is asked for.
pub struct QualityOption {
    pub label: &'static str,
    pub ratio: &'static str,
}

/// The qualities offered for a video whose longer side is `side`, as pairs of
/// what is shown and what is asked for, best first.
pub open spec fn quality_options(side: u64) -> Seq<(Seq<char>, Seq<char>)> {
    let top = if side >= 1080 {
        seq![("1080p (original)"@, "default"@), ("1080p"@, "1080p"@)]
    } else if side >= 720 {
        seq![("720p (original)"@, "default"@)]
    } else {
        Seq::empty()
    };
    let middle = if side >= 720 {
        seq![("720p"@, "720p"@)]
    } else {
        Seq::empty()
    };
    top + middle + seq![("540p"@, "540p"@)]
}

/// The pairs that `options` stand for.
pub open spec fn option_views(options: Seq<QualityOption>) -> Seq<(Seq<char>, Seq<char>)> {
    Seq::new(options.len(), |i: int| (options[i].label@, options[i].ratio@))
}

/// The qualities offered for a video whose longer side is `side`.
pub fn offered_qualities(side: u64) -> (r: Vec<QualityOption>)
    ensures
        option_views(r@) == quality_options(side),
{
    let mut options: Vec<QualityOption> = Vec::new();
    if side >= 1080 {
        options.push(QualityOption { label: "1080p (original)", ratio: "default" });
        options.push(QualityOption { label: "1080p", ratio: "1080p" });
    } else if side >= 720 {
        options.push(QualityOption { label: "720p (original)", ratio: "default" });
    }
    if side >= 720 {
        options.push(QualityOption { label: "720p", ratio: "720p" });
    }
    options.push(QualityOption { label: "540p", ratio: "540p" });
    assert(option_views(options@) =~= quality_options(side));
    options
}

/// Where the video `uri` plays in the quality asked for by `ratio`.
pub open spec fn play_link(uri: Seq<char>, ratio: Seq<char>) -> Seq<char> {
    "https://aweme.snssdk.com/aweme/v1/play/?video_id="@ + uri + "&ratio="@ + ratio + "&line=0"@
}

/// The formats of the video `uri` in each of `options`.
pub open spec fn option_formats(uri: Seq<char>, options: Seq<(Seq<char>, Seq<char>)>) -> Seq<
    VideoFormatView,
> {
    Seq::new(
        options.len(),
        |i: int|
            VideoFormatView {
                quality: options[i].0,
                url: play_link(uri, options[i].1),
                audio_url: None,
                size: None,
            },
    )
}

/// What `doc` holds under `first`, and there under `second`.
pub open spec fn field2(doc: JsonValue, first: Seq<char>, second: Seq<char>) -> Option<JsonValue> {
    field_of(field(doc, first), second)
}

/// What `doc` holds under `first`, there under `second`, and there under
/// `third`.
pub open spec fn field3(doc: JsonValue, first: Seq<char>, second: Seq<char>, third: Seq<char>) -> Option<
    JsonValue,
> {
    field_of(field2(doc, first, second), third)
}

/// The formats that `item` offers: one for each quality where the video has
/// a `uri`; else the one address listed, without its watermark.
pub open spec fn item_formats(item: JsonValue) -> Seq<VideoFormatView> {
    let uri = match text_in(field3(item, "video"@, "play_addr"@, "uri"@)) {
        Some(u) => u,
        None => Seq::empty(),
    };
    if uri.len() > 0 {
        let width = match unsigned_in(field2(item, "video"@, "width"@)) {
            Some(n) => n,
            None => 0,
        };
        let height = match unsigned_in(field2(item, "video"@, "height"@)) {
            Some(n) => n,
            None => 0,
        };
        option_formats(uri, quality_options(longer_side(width, height)))
    } else {
        match text_in(entry_of(field3(item, "video"@, "play_addr"@, "url_list"@), 0)) {
            Some(link) => seq![
                VideoFormatView {
                    quality: "default"@,
                    url: replaced(link, "playwm"@, "play"@),
                    audio_url: None,
                    size: None,
                },
            ],
            None => Seq::empty(),
        }
    }
}

/// What the embedded data `router` says of the video, or why it says
/// nothing.
pub open spec fn share_info(router: JsonValue) -> Result<VideoInfoView, Seq<char>> {
    match share_item(router) {
        None => Err("Video info not found in Douyin share page data"@),
        Some(item) => if item_formats(item).len() == 0 {
            Err("No playable video URLs found in Douyin share page"@)
        } else {
            Ok(
                VideoInfoView {
                    title: match text_in(field(item, "desc"@)) {
                        Some(t) => t,
                        None => "Douyin Video"@,
                    },
                    cover_url: text_in(
                        entry_of(field3(item, "video"@, "cover"@, "url_list"@), 0),
                    ),
                    duration: match unsigned_in(field2(item, "video"@, "duration"@)) {
                        Some(ms) => Some(ms / 1000),
                        None => None,
                    },
                    platform: "douyin"@,
                    formats: item_formats(item),
                },
            )
        },
    }
}

/// The formats that `item` offers.
pub fn read_item_formats(item: &Json) -> (r: Vec<VideoFormat>)
    ensures
        format_views(r@) == item_formats(item@),
{
    let video: Option<&Json> = item.get("video");
    let play_addr: Option<&Json> = child(video, "play_addr");
    let uri: &str = match text(child(play_addr, "uri")) {
        Some(u) => u,
        None => "",
    };
    proof {
        reveal_strlit("");
    }
    let mut formats: Vec<VideoFormat> = Vec::new();
    if uri.unicode_len() > 0 {
        let width: u64 = match unsigned(child(video, "width")) {
            Some(n) => n,
            None => 0,
        };
        let height: u64 = match unsigned(child(video, "height")) {
            Some(n) => n,
            None => 0,
        };
        let side: u64 = if width >= height {
            width
        } else {
            height
        };
        let options: Vec<QualityOption> = offered_qualities(side);
        let ghost wanted = option_formats(uri@, quality_options(side));
        let mut i: usize = 0;
        while i < options.len()
            invariant
                i <= options.len(),
                option_views(options@) == quality_options(side),
                wanted == option_formats(uri@, quality_options(side)),
                format_views(formats@) == wanted.take(i as int),
            decreases options.len() - i,
        {
            let mut link: Vec<char> = Vec::new();
            push_str(&mut link, "https://aweme.snssdk.com/aweme/v1/play/?video_id=");
            push_str(&mut link, uri);
            push_str(&mut link, "&ratio=");
            push_str(&mut link, options[i].ratio);
            push_str(&mut link, "&line=0");
            assert(option_views(options@)[i as int] == (options[i as int].label@, options[i as int].ratio@));
            assert(link@ =~= play_link(uri@, options[i as int].ratio@));
            let format = VideoFormat {
                quality: options[i].label.to_owned(),
                url: text_of(&link),
                audio_url: None,
                size: None,
            };
            formats.push(format);
            assert(quality_options(side)[i as int] == option_views(options@)[i as int]);
            assert(wanted[i as int] == format@);
            assert(format_views(formats@) =~= wanted.take(i as int).push(format@));
            assert(wanted.take(i + 1) =~= wanted.take(i as int).push(wanted[i as int]));
            i = i + 1;
        }
        assert(wanted.take(options.len() as int) =~= wanted);
    } else {
        match text(nth(child(play_addr, "url_list"), 0)) {
            Some(link) => {
                let clean: Vec<char> = replace_all(
                    &chars_of(link),
                    &chars_of("playwm"),
                    &chars_of("play"),
                );
                let format = VideoFormat {
                    quality: "default".to_owned(),
                    url: text_of(&clean),
                    audio_url: None,
                    size: None,
                };
                formats.push(format);
                assert(format_views(formats@) =~= seq![format@]);
            },
            None => {
                assert(format_views(formats@) =~= Seq::empty());
            },
        }
    }
    formats
}

/// Reads what the embedded data says of the video.
pub fn read_share_data(router: &Json) -> (r: Result<VideoInfo, IpcError>)
    ensures
        match r {
            Ok(info) => share_info(router@) == Ok::<VideoInfoView, Seq<char>>(info@),
            Err(e) => e.kind == IpcErrorKind::Internal && share_info(router@) == Err::<
                VideoInfoView,
                Seq<char>,
            >(e.message@),
        },
{
    let item: &Json = match find_item(router) {
        Some(item) => item,
        None => {
            return Err(IpcError::internal("Video info not found in Douyin share page data"));
        },
    };
    let title: String = match text(item.get("desc")) {
        Some(t) => t.to_owned(),
        None => "Douyin Video".to_owned(),
    };
    let video: Option<&Json> = item.get("video");
    let cover_url: Option<String> = owned(text(nth(child(child(video, "cover"), "url_list"), 0)));
    let duration: Option<u64> = match unsigned(child(video, "duration")) {
        Some(ms) => Some(ms / 1000),
        None => None,
    };
    let formats: Vec<VideoFormat> = read_item_formats(item);
    if formats.len() == 0 {
        return Err(IpcError::internal("No playable video URLs found in Douyin share page"));
    }
    Ok(VideoInfo { title, cover_url, duration, platform: "douyin".to_owned(), formats })
}

} // verus!
