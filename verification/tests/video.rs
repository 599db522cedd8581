use omnikit::error::IpcErrorKind;
use omnikit::json::parse;
use omnikit::video::bilibili::{
    bvid_from_match, extract_bvid, is_short_link, play_url, quality_label, read_formats,
    read_view, short_link_target, video_info, view_url, BilibiliParser,
};
use omnikit::video::douyin::{
    direct_info, extract_router_data, extract_video_id, is_direct_cdn_url, offered_qualities,
    read_share_data, share_url, DouyinParser,
};
use omnikit::video::downloader::{
    cancelled_event, cancelled_fault, download_filename, finished_event, needs_resolution,
    redirect_target, referer_for, running_event, sanitize_filename, transfer_rate,
    DownloadManager, ProgressTracker,
};
use omnikit::video::{
    extract_url_from_text, requested_url, select_platform, DownloadStatus, Platform, VideoFormat,
};

#[test]
fn quality_label_names_the_known_ids() {
    let known = [
        (127, "8K"), (126, "Dolby Vision"), (125, "HDR"), (120, "4K"), (116, "1080P60"),
        (112, "1080P+"), (80, "1080P"), (74, "720P60"), (64, "720P"), (32, "480P"), (16, "360P"),
    ];
    for (id, name) in known {
        assert_eq!(quality_label(id), name);
    }
    assert_eq!(quality_label(0), "0P");
    assert_eq!(quality_label(6), "6P");
    assert_eq!(quality_label(240), "240P");
    assert_eq!(quality_label(u64::MAX), "18446744073709551615P");
}

#[test]
fn is_direct_cdn_url_wants_host_and_path_or_the_mime_type() {
    assert!(is_direct_cdn_url("https://v3.douyinvod.com/abc/video/tos/x.mp4"));
    assert!(is_direct_cdn_url("https://cdn.example/x?mime_type=video_mp4"));
    assert!(!is_direct_cdn_url("https://v3.douyinvod.com/abc/x.mp4"));
    assert!(!is_direct_cdn_url("https://www.douyin.com/video/123"));
    assert!(!is_direct_cdn_url(""));
}

#[test]
fn sanitize_filename_replaces_reserved_characters_and_trims() {
    assert_eq!(sanitize_filename("a/b\\c:d*e?f\"g<h>i|j"), "a_b_c_d_e_f_g_h_i_j");
    assert_eq!(sanitize_filename("  hello world \n"), "hello world");
    assert_eq!(sanitize_filename(" /x/ "), "_x_");
    assert_eq!(sanitize_filename("视频：标题"), "视频：标题");
    assert_eq!(sanitize_filename(""), "");
    assert_eq!(sanitize_filename("   "), "");
    assert_eq!(download_filename(" a:b "), "a_b.mp4");
}

#[test]
fn parsers_take_their_own_links() {
    assert!(BilibiliParser.can_handle("https://www.bilibili.com/video/BV1xx"));
    assert!(BilibiliParser.can_handle("https://b23.tv/abc"));
    assert!(!BilibiliParser.can_handle("https://example.com"));
    assert!(DouyinParser.can_handle("https://v.douyin.com/abc/"));
    assert!(DouyinParser.can_handle("https://x.douyinvod.com/a"));
    assert!(DouyinParser.can_handle("https://www.iesdouyin.com/share/video/1"));
    assert!(!DouyinParser.can_handle("https://www.bilibili.com/"));
    assert_eq!(select_platform("https://v.douyin.com/a?from=bilibili.com"), Some(Platform::Douyin));
    assert_eq!(select_platform("https://b23.tv/x"), Some(Platform::Bilibili));
    assert_eq!(select_platform("https://example.com"), None);
}

#[test]
fn extract_bvid_takes_the_first_id() {
    assert_eq!(extract_bvid("https://www.bilibili.com/video/BV1GJ411x7h7?p=2").unwrap(), "BV1GJ411x7h7");
    assert_eq!(extract_bvid("xBVabc-BVdef").unwrap(), "BVabc");
    let e = extract_bvid("https://www.bilibili.com/video/av170001").unwrap_err();
    assert_eq!(e.kind, IpcErrorKind::Validation);
    assert_eq!(e.message, "Could not extract BV ID from Bilibili URL");
    assert!(extract_bvid("BV").is_err());
    assert_eq!(bvid_from_match(Some("BV1".to_string())).unwrap(), "BV1");
}

#[test]
fn bilibili_addresses_are_built_from_the_ids() {
    assert_eq!(view_url("BV1"), "https://api.bilibili.com/x/web-interface/view?bvid=BV1");
    assert_eq!(
        play_url("BV1", 42),
        "https://api.bilibili.com/x/player/playurl?bvid=BV1&cid=42&fnval=16&fourk=1"
    );
}

#[test]
fn read_view_wants_data_and_cid() {
    let ok = parse(r#"{"data":{"title":"T","pic":"http://p","duration":61,"cid":9}}"#).unwrap();
    let v = read_view(&ok).unwrap();
    assert_eq!((v.title.as_str(), v.cover_url.as_deref(), v.duration, v.cid), ("T", Some("http://p"), Some(61), 9));
    let bare = parse(r#"{"data":{"cid":9}}"#).unwrap();
    let v = read_view(&bare).unwrap();
    assert_eq!((v.title.as_str(), v.cover_url, v.duration), ("Bilibili Video", None, None));
    let e = read_view(&parse(r#"{"code":-400}"#).unwrap()).unwrap_err();
    assert_eq!((e.kind, e.message.as_str()), (IpcErrorKind::Internal, "Failed to get video info from Bilibili API"));
    let e = read_view(&parse(r#"{"data":{"title":"T","cid":"9"}}"#).unwrap()).unwrap_err();
    assert_eq!(e.message, "Failed to get cid from Bilibili video info");
}

#[test]
fn read_formats_prefers_dash_and_keeps_one_entry_per_quality() {
    let answer = parse(r#"{"data":{"dash":{
        "audio":[{"baseUrl":"http://a0"},{"baseUrl":"http://a1"}],
        "video":[
            {"id":80,"baseUrl":"http://v80-avc"},
            {"id":80,"baseUrl":"http://v80-hevc"},
            {"id":64},
            {"id":64,"baseUrl":"http://v64-late"},
            {"baseUrl":"http://v0"},
            {"id":6,"baseUrl":"http://v6"}
        ]},
        "durl":[{"url":"http://d0","size":5}]}}"#).unwrap();
    let formats = read_formats(&answer).unwrap();
    let seen: Vec<(&str, &str, Option<&str>, Option<u64>)> = formats
        .iter()
        .map(|f| (f.quality.as_str(), f.url.as_str(), f.audio_url.as_deref(), f.size))
        .collect();
    assert_eq!(
        seen,
        vec![
            ("1080P", "http://v80-avc", Some("http://a0"), None),
            ("0P", "http://v0", Some("http://a0"), None),
            ("6P", "http://v6", Some("http://a0"), None),
        ]
    );
}

#[test]
fn read_formats_falls_back_to_the_plain_list() {
    let answer = parse(r#"{"data":{"dash":{"video":[{"id":80}]},"durl":[{"url":"http://d0","size":5},{"size":6},{"url":"http://d2"}]}}"#).unwrap();
    let formats = read_formats(&answer).unwrap();
    assert_eq!(
        formats,
        vec![
            VideoFormat { quality: "default".to_string(), url: "http://d0".to_string(), audio_url: None, size: Some(5) },
            VideoFormat { quality: "default".to_string(), url: "http://d2".to_string(), audio_url: None, size: None },
        ]
    );
    let e = read_formats(&parse(r#"{"data":{}}"#).unwrap()).unwrap_err();
    assert_eq!(e.message, "No playable video formats found");
    let e = read_formats(&parse(r#"{}"#).unwrap()).unwrap_err();
    assert_eq!(e.message, "Failed to get play URL data from Bilibili API");
    let view = read_view(&parse(r#"{"data":{"cid":1,"title":"t"}}"#).unwrap()).unwrap();
    let info = video_info(view, formats);
    assert_eq!(info.platform, "bilibili");
    assert_eq!(info.title, "t");
    assert_eq!(info.formats.len(), 2);
}

#[test]
fn extract_video_id_reads_path_then_query() {
    assert_eq!(extract_video_id("https://www.douyin.com/video/7123456789?x=1").unwrap(), "7123456789");
    assert_eq!(extract_video_id("https://www.douyin.com/note/55/").unwrap(), "55");
    assert_eq!(extract_video_id("https://www.douyin.com/discover?modal_id=777").unwrap(), "777");
    assert_eq!(extract_video_id("/video/1?modal_id=2").unwrap(), "1");
    let e = extract_video_id("https://www.douyin.com/user/abc").unwrap_err();
    assert_eq!((e.kind, e.message.as_str()), (IpcErrorKind::Validation, "Could not extract video ID from Douyin URL"));
    assert!(extract_video_id("/video/abc").is_err());
    assert_eq!(share_url("77"), "https://www.iesdouyin.com/share/video/77");
}

#[test]
fn extract_router_data_reads_the_embedded_document() {
    let html = r#"<html><script>window._ROUTER_DATA = {"loaderData":{"a":1}}</script></html>"#;
    assert_eq!(extract_router_data(html).unwrap(), parse(r#"{"loaderData":{"a":1}}"#).unwrap());
    let e = extract_router_data("<html></html>").unwrap_err();
    assert_eq!((e.kind, e.message.as_str()), (IpcErrorKind::Internal, "Could not find _ROUTER_DATA in Douyin share page"));
    let e = extract_router_data("<script>_ROUTER_DATA={oops}</script>").unwrap_err();
    assert_eq!(e.kind, IpcErrorKind::Internal);
    assert!(e.message.starts_with("Failed to parse _ROUTER_DATA: "));
    assert!(e.message.len() > "Failed to parse _ROUTER_DATA: ".len());
}

fn share_page(item: &str) -> String {
    format!(r#"{{"loaderData":{{"app":{{}},"video_(id)/page":{{"videoInfoRes":{{"item_list":[{}]}}}}}}}}"#, item)
}

#[test]
fn read_share_data_offers_every_quality_the_size_allows() {
    let item = r#"{"desc":"D","video":{"cover":{"url_list":["http://c"]},"duration":61999,"width":1080,"height":1920,"play_addr":{"uri":"v0200","url_list":["http://p/playwm/x"]}}}"#;
    let info = read_share_data(&parse(&share_page(item)).unwrap()).unwrap();
    assert_eq!(info.title, "D");
    assert_eq!(info.cover_url.as_deref(), Some("http://c"));
    assert_eq!(info.duration, Some(61));
    assert_eq!(info.platform, "douyin");
    let seen: Vec<(&str, &str)> = info.formats.iter().map(|f| (f.quality.as_str(), f.url.as_str())).collect();
    assert_eq!(
        seen,
        vec![
            ("1080p (original)", "https://aweme.snssdk.com/aweme/v1/play/?video_id=v0200&ratio=default&line=0"),
            ("1080p", "https://aweme.snssdk.com/aweme/v1/play/?video_id=v0200&ratio=1080p&line=0"),
            ("720p", "https://aweme.snssdk.com/aweme/v1/play/?video_id=v0200&ratio=720p&line=0"),
            ("540p", "https://aweme.snssdk.com/aweme/v1/play/?video_id=v0200&ratio=540p&line=0"),
        ]
    );
    assert!(info.formats.iter().all(|f| f.audio_url.is_none() && f.size.is_none()));
}

#[test]
fn offered_qualities_follow_the_longer_side() {
    let labels = |side: u64| -> Vec<&'static str> { offered_qualities(side).iter().map(|o| o.label).collect() };
    assert_eq!(labels(1080), vec!["1080p (original)", "1080p", "720p", "540p"]);
    assert_eq!(labels(1079), vec!["720p (original)", "720p", "540p"]);
    assert_eq!(labels(720), vec!["720p (original)", "720p", "540p"]);
    assert_eq!(labels(719), vec!["540p"]);
    assert_eq!(labels(0), vec!["540p"]);
    let ratios: Vec<&'static str> = offered_qualities(720).iter().map(|o| o.ratio).collect();
    assert_eq!(ratios, vec!["default", "720p", "540p"]);
}

#[test]
fn read_share_data_falls_back_to_the_listed_address() {
    let item = r#"{"video":{"play_addr":{"uri":"","url_list":["http://p/playwm/?playwm=1"]}}}"#;
    let info = read_share_data(&parse(&share_page(item)).unwrap()).unwrap();
    assert_eq!(info.title, "Douyin Video");
    assert_eq!(info.cover_url, None);
    assert_eq!(info.duration, None);
    assert_eq!(info.formats.len(), 1);
    assert_eq!(info.formats[0].quality, "default");
    assert_eq!(info.formats[0].url, "http://p/play/?play=1");

    let e = read_share_data(&parse(&share_page(r#"{"video":{}}"#)).unwrap()).unwrap_err();
    assert_eq!((e.kind, e.message.as_str()), (IpcErrorKind::Internal, "No playable video URLs found in Douyin share page"));
    let e = read_share_data(&parse(r#"{"loaderData":{"video_page":{}}}"#).unwrap()).unwrap_err();
    assert_eq!(e.message, "Video info not found in Douyin share page data");
    let e = read_share_data(&parse(r#"{"loaderData":[]}"#).unwrap()).unwrap_err();
    assert_eq!(e.message, "Video info not found in Douyin share page data");
}

#[test]
fn the_first_page_member_decides_even_where_it_is_empty() {
    let doc = parse(r#"{"loaderData":{"a_video_page":{},"video_(id)/page":{"videoInfoRes":{"item_list":[{"video":{"play_addr":{"uri":"u"}}}]}}}}"#).unwrap();
    assert!(read_share_data(&doc).is_err());
}

#[test]
fn direct_links_are_offered_as_they_are() {
    let info = direct_info("https://v.douyinvod.com/video/x");
    assert_eq!(info.title, "Douyin Video");
    assert_eq!(info.platform, "douyin");
    assert_eq!(
        info.formats,
        vec![VideoFormat { quality: "original".to_string(), url: "https://v.douyinvod.com/video/x".to_string(), audio_url: None, size: None }]
    );
}

#[test]
fn extract_url_from_text_finds_the_link_in_a_share_text() {
    assert_eq!(
        extract_url_from_text("7.43 复制打开抖音 https://v.douyin.com/iJk3mN/ 看看").as_deref(),
        Some("https://v.douyin.com/iJk3mN/")
    );
    assert_eq!(extract_url_from_text("see http://a.b/c?d=1, then").as_deref(), Some("http://a.b/c?d=1"));
    assert_eq!(extract_url_from_text("(https://a.b/c).").as_deref(), Some("https://a.b/c"));
    assert_eq!(extract_url_from_text("https://a.b/c，后面").as_deref(), Some("https://a.b/c"));
    assert_eq!(extract_url_from_text("https://a.b/视频").as_deref(), Some("https://a.b/"));
    assert_eq!(extract_url_from_text("no link here"), None);
    assert_eq!(requested_url("  BV1xx  "), "BV1xx");
    assert_eq!(requested_url(" see https://b23.tv/x! "), "https://b23.tv/x");
}

#[test]
fn downloads_name_bilibili_as_their_referer() {
    assert_eq!(referer_for("https://upos.bilivideo.com/x"), Some("https://www.bilibili.com/"));
    assert_eq!(referer_for("https://www.bilibili.com/x"), Some("https://www.bilibili.com/"));
    assert_eq!(referer_for("https://aweme.snssdk.com/x"), None);
    assert!(needs_resolution("https://aweme.snssdk.com/x"));
    assert!(!needs_resolution("https://upos.bilivideo.com/x"));
    assert_eq!(redirect_target("u", true, Some("l")), "l");
    assert_eq!(redirect_target("u", true, None), "u");
    assert_eq!(redirect_target("u", false, Some("l")), "u");
}

#[test]
fn progress_is_reported_every_fifth_of_a_second() {
    let mut t = ProgressTracker::new(1000);
    assert_eq!(t.on_chunk(100, 1100), None);
    assert_eq!(t.on_chunk(100, 1199), None);
    assert_eq!(t.on_chunk(300, 1200), Some(2500));
    assert_eq!(t, ProgressTracker { downloaded: 500, last_report: 1200, last_downloaded: 500 });
    assert_eq!(t.on_chunk(0, 1700), Some(0));
    assert_eq!(t.on_chunk(1, 1600), None);
    assert_eq!(t.downloaded, 501);
    let mut t = ProgressTracker { downloaded: u64::MAX - 1, last_report: 0, last_downloaded: 0 };
    assert_eq!(t.on_chunk(5, 1000), Some(u64::MAX));
    assert_eq!(t.downloaded, u64::MAX);
}

#[test]
fn transfer_rate_is_bytes_per_second_rounded_down() {
    assert_eq!(transfer_rate(1000, 1000), 1000);
    assert_eq!(transfer_rate(1, 3), 333);
    assert_eq!(transfer_rate(0, 5), 0);
    assert_eq!(transfer_rate(5, 0), 0);
    assert_eq!(transfer_rate(u64::MAX, 1), u64::MAX);
    assert_eq!(transfer_rate(u64::MAX, 1000), u64::MAX);
}

#[test]
fn events_tell_how_a_download_stands() {
    let e = running_event("t1", 10, Some(100), 5);
    assert_eq!((e.task_id.as_str(), e.downloaded, e.total, e.speed, &e.status), ("t1", 10, Some(100), 5, &DownloadStatus::Downloading));
    let e = cancelled_event("t1", 10, None);
    assert_eq!((e.downloaded, e.total, e.speed, &e.status), (10, None, 0, &DownloadStatus::Cancelled));
    let e = finished_event("t1", None);
    assert_eq!((e.downloaded, e.total, e.speed, &e.status), (0, None, 0, &DownloadStatus::Completed));
    let e = finished_event("t1", Some("disk full"));
    assert_eq!(e.status, DownloadStatus::Failed("disk full".to_string()));
}

#[test]
fn short_links_lead_where_the_answer_says() {
    assert!(is_short_link("https://b23.tv/abc"));
    assert!(!is_short_link("https://www.bilibili.com/video/BV1"));
    assert_eq!(short_link_target(Some("https://www.bilibili.com/video/BV1")).unwrap(), "https://www.bilibili.com/video/BV1");
    let e = short_link_target(None).unwrap_err();
    assert_eq!((e.kind, e.message.as_str()), (IpcErrorKind::Internal, "Failed to resolve Bilibili short URL"));
}

#[test]
fn only_downloads_under_way_can_be_cancelled() {
    let mut manager = DownloadManager::new();
    let e = manager.cancel_download("t1").unwrap_err();
    assert_eq!((e.kind, e.message.as_str()), (IpcErrorKind::NotFound, "Download task not found"));
    assert_eq!(manager.start_download("t1", " a/b "), "a_b.mp4");
    assert_eq!(manager.start_download("t2", "x"), "x.mp4");
    assert_eq!(manager.start_download("t1", "again"), "again.mp4");
    assert!(manager.has_task("t1"));
    assert_eq!(manager.cancel_download("t1"), Ok(()));
    manager.finish("t1");
    assert!(!manager.has_task("t1"));
    assert!(manager.has_task("t2"));
    assert!(manager.cancel_download("t1").is_err());
    manager.finish("never started");
    assert_eq!(manager.cancel_download("t2"), Ok(()));
    let e = cancelled_fault();
    assert_eq!((e.kind, e.message.as_str()), (IpcErrorKind::Internal, "Download cancelled"));
}

#[test]
fn lists_that_come_as_objects_are_read_by_their_numbered_keys() {
    let item = r#"{"video":{"cover":{"url_list":{"0":"http://c"}},"play_addr":{"uri":"","url_list":{"0":"http://p/playwm/"}}}}"#;
    let page = format!(r#"{{"loaderData":{{"video_(id)/page":{{"videoInfoRes":{{"item_list":{{"0":{}}}}}}}}}}}"#, item);
    let info = read_share_data(&parse(&page).unwrap()).unwrap();
    assert_eq!(info.cover_url.as_deref(), Some("http://c"));
    assert_eq!(info.formats[0].url, "http://p/play/");
    let answer = parse(r#"{"data":{"dash":{"audio":{"0":{"baseUrl":"http://a"}},"video":[{"id":80,"baseUrl":"http://v"}]}}}"#).unwrap();
    assert_eq!(read_formats(&answer).unwrap()[0].audio_url.as_deref(), Some("http://a"));
}
