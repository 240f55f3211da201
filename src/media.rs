use vstd::prelude::*;
use crate::text::{seq_contains, str_contains};

verus! {

/// The kind of media a track carries.
#[derive(Clone, Copy, Debug, PartialEq, Eq, Structural)]
pub enum MediaType {
    Video,
    Audio,
}

pub open spec fn video_lower() -> Seq<char> {
    seq!['v', 'i', 'd', 'e', 'o']
}

pub open spec fn video_upper() -> Seq<char> {
    seq!['V', 'i', 'd', 'e', 'o']
}

/// The media type named by a codec MIME type: video when it mentions
/// "video" or "Video", audio otherwise.
pub open spec fn media_type_of(mime_type: Seq<char>) -> MediaType {
    if seq_contains(mime_type, video_lower()) || seq_contains(mime_type, video_upper()) {
        MediaType::Video
    } else {
        MediaType::Audio
    }
}

/// Tells video from audio by the codec's MIME type ("video/VP8", "audio/opus").
pub fn detect_mime_type(mime_type: String) -> (r: MediaType)
    ensures
        r == media_type_of(mime_type@),
{
    let lower = String::from_str("video");
    let upper = String::from_str("Video");
    proof {
        reveal_strlit("video");
        reveal_strlit("Video");
        assert(lower@ =~= video_lower());
        assert(upper@ =~= video_upper());
    }
    if str_contains(mime_type.as_str(), lower.as_str()) || str_contains(
        mime_type.as_str(),
        upper.as_str(),
    ) {
        MediaType::Video
    } else {
        MediaType::Audio
    }
}

} // verus!
