//! Downloads as the desktop shell asks for them.

use crate::text::view_of;
use crate::video::{VideoFormat, VideoFormatView};
use vstd::prelude::*;

verus! {

/// The format that a download was asked for: the addresses and the quality
/// as given, and no size.
pub fn requested_format(quality: String, video_url: String, audio_url: Option<String>) -> (r:
    VideoFormat)
    ensures
        r@ == (VideoFormatView {
            quality: quality@,
            url: video_url@,
            audio_url: view_of(audio_url),
            size: None,
        }),
{
    VideoFormat { quality, url: video_url, audio_url, size: None }
}

} // verus!
