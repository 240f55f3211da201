use vstd::prelude::*;
use webrtc::rtp_transceiver::rtp_codec::RTCRtpCodecParameters;
use crate::text::str_eq;

verus! {

pub open spec fn audio_level_uri() -> Seq<char> {
    "urn:ietf:params:rtp-hdrext:ssrc-audio-level"@
}

pub open spec fn abs_send_time_uri() -> Seq<char> {
    "http://www.webrtc.org/experiments/rtp-hdrext/abs-send-time"@
}

pub open spec fn transport_cc_uri() -> Seq<char> {
    "http://www.ietf.org/id/draft-holmer-rmcat-transport-wide-cc-extensions-01"@
}

pub open spec fn sdes_mid_uri() -> Seq<char> {
    "urn:ietf:params:rtp-hdrext:sdes:mid"@
}

pub open spec fn sdes_rtp_stream_id_uri() -> Seq<char> {
    "urn:ietf:params:rtp-hdrext:sdes:rtp-stream-id"@
}

pub open spec fn sdes_repair_rtp_stream_id_uri() -> Seq<char> {
    "urn:ietf:params:rtp-hdrext:sdes:repaired-rtp-stream-id"@
}

pub open spec fn video_orientation_uri() -> Seq<char> {
    "urn:3gpp:video-orientation"@
}

pub open spec fn toffset_uri() -> Seq<char> {
    "urn:ietf:params:rtp-hdrext:toffset"@
}

pub open spec fn strings_view(v: Seq<String>) -> Seq<Seq<char>> {
    v.map_values(|s: String| s@)
}

/// The RTP header extensions registered for audio and for video, by URI.
#[derive(Clone, Debug)]
pub struct HeaderExtensionConfig {
    pub audio: Vec<String>,
    pub video: Vec<String>,
}

/// The header extensions audio tracks use unless configured otherwise.
pub open spec fn default_audio_extensions() -> Seq<Seq<char>> {
    seq![audio_level_uri(), abs_send_time_uri(), transport_cc_uri(), sdes_mid_uri()]
}

/// The header extensions video tracks use unless configured otherwise.
pub open spec fn default_video_extensions() -> Seq<Seq<char>> {
    seq![
        toffset_uri(),
        sdes_mid_uri(),
        sdes_rtp_stream_id_uri(),
        sdes_repair_rtp_stream_id_uri(),
        abs_send_time_uri(),
    ]
}

impl Default for HeaderExtensionConfig {
    fn default() -> (r: HeaderExtensionConfig)
        ensures
            strings_view(r.audio@) == default_audio_extensions(),
            strings_view(r.video@) == default_video_extensions(),
    {
        let mut audio: Vec<String> = Vec::new();
        audio.push(String::from_str("urn:ietf:params:rtp-hdrext:ssrc-audio-level"));
        audio.push(String::from_str("http://www.webrtc.org/experiments/rtp-hdrext/abs-send-time"));
        audio.push(
            String::from_str(
                "http://www.ietf.org/id/draft-holmer-rmcat-transport-wide-cc-extensions-01",
            ),
        );
        audio.push(String::from_str("urn:ietf:params:rtp-hdrext:sdes:mid"));
        let mut video: Vec<String> = Vec::new();
        video.push(String::from_str("urn:ietf:params:rtp-hdrext:toffset"));
        video.push(String::from_str("urn:ietf:params:rtp-hdrext:sdes:mid"));
        video.push(String::from_str("urn:ietf:params:rtp-hdrext:sdes:rtp-stream-id"));
        video.push(String::from_str("urn:ietf:params:rtp-hdrext:sdes:repaired-rtp-stream-id"));
        video.push(String::from_str("http://www.webrtc.org/experiments/rtp-hdrext/abs-send-time"));
        assert(strings_view(audio@) =~= default_audio_extensions());
        assert(strings_view(video@) =~= default_video_extensions());
        HeaderExtensionConfig { audio, video }
    }
}

/// The codecs registered for audio and for video. When both lists are empty
/// the default codecs are registered instead.
#[derive(Clone, Debug)]
pub struct CodecConfig {
    pub audio: Vec<RTCRtpCodecParameters>,
    pub video: Vec<RTCRtpCodecParameters>,
}

impl Default for CodecConfig {
    fn default() -> (r: CodecConfig)
        ensures
            r.audio@.len() == 0,
            r.video@.len() == 0,
    {
        CodecConfig { audio: Vec::new(), video: Vec::new() }
    }
}

/// Codec and header-extension configuration of a router.
#[derive(Clone, Debug)]
pub struct MediaConfig {
    pub codec: CodecConfig,
    pub header_extension: HeaderExtensionConfig,
}

impl Default for MediaConfig {
    fn default() -> (r: MediaConfig)
        ensures
            r.codec.audio@.len() == 0,
            r.codec.video@.len() == 0,
            strings_view(r.header_extension.audio@) == default_audio_extensions(),
            strings_view(r.header_extension.video@) == default_video_extensions(),
    {
        MediaConfig { codec: CodecConfig::default(), header_extension: HeaderExtensionConfig::default() }
    }
}

/// The fixed extension IDs offered to subscribers: audio-level 1,
/// abs-send-time 2, transport-cc 3, sdes-mid 4, rtp-stream-id 10,
/// repaired-rtp-stream-id 11, video-orientation 13, toffset 14.
pub open spec fn fixed_extmap_table() -> Seq<(u16, Seq<char>)> {
    seq![
        (1u16, audio_level_uri()),
        (2u16, abs_send_time_uri()),
        (3u16, transport_cc_uri()),
        (4u16, sdes_mid_uri()),
        (10u16, sdes_rtp_stream_id_uri()),
        (11u16, sdes_repair_rtp_stream_id_uri()),
        (13u16, video_orientation_uri()),
        (14u16, toffset_uri()),
    ]
}

/// The fixed ID of an extension URI, if the table above names it.
pub open spec fn fixed_extmap_id(uri: Seq<char>) -> Option<u16> {
    if uri == audio_level_uri() {
        Some(1u16)
    } else if uri == abs_send_time_uri() {
        Some(2u16)
    } else if uri == transport_cc_uri() {
        Some(3u16)
    } else if uri == sdes_mid_uri() {
        Some(4u16)
    } else if uri == sdes_rtp_stream_id_uri() {
        Some(10u16)
    } else if uri == sdes_repair_rtp_stream_id_uri() {
        Some(11u16)
    } else if uri == video_orientation_uri() {
        Some(13u16)
    } else if uri == toffset_uri() {
        Some(14u16)
    } else {
        None
    }
}

/// The fixed extension ID table as (id, uri) pairs.
pub fn extmap_order() -> (r: Vec<(u16, String)>)
    ensures
        r@.map_values(|p: (u16, String)| (p.0, p.1@)) == fixed_extmap_table(),
{
    let mut v: Vec<(u16, String)> = Vec::new();
    v.push((1, String::from_str("urn:ietf:params:rtp-hdrext:ssrc-audio-level")));
    v.push((2, String::from_str("http://www.webrtc.org/experiments/rtp-hdrext/abs-send-time")));
    v.push(
        (
            3,
            String::from_str(
                "http://www.ietf.org/id/draft-holmer-rmcat-transport-wide-cc-extensions-01",
            ),
        ),
    );
    v.push((4, String::from_str("urn:ietf:params:rtp-hdrext:sdes:mid")));
    v.push((10, String::from_str("urn:ietf:params:rtp-hdrext:sdes:rtp-stream-id")));
    v.push((11, String::from_str("urn:ietf:params:rtp-hdrext:sdes:repaired-rtp-stream-id")));
    v.push((13, String::from_str("urn:3gpp:video-orientation")));
    v.push((14, String::from_str("urn:ietf:params:rtp-hdrext:toffset")));
    assert(v@.map_values(|p: (u16, String)| (p.0, p.1@)) =~= fixed_extmap_table());
    v
}

proof fn lemma_fixed_table_lookup(uri: Seq<char>, i: int)
    requires
        0 <= i <= 8,
        forall|k: int| 0 <= k < i ==> fixed_extmap_table()[k].1 != uri,
    ensures
        i < 8 && fixed_extmap_table()[i].1 == uri ==> fixed_extmap_id(uri) == Some(
            fixed_extmap_table()[i].0,
        ),
        i == 8 ==> fixed_extmap_id(uri) is None,
{
    let t = fixed_extmap_table();
    if i > 0 {
        assert(t[0].1 != uri);
    }
    if i > 1 {
        assert(t[1].1 != uri);
    }
    if i > 2 {
        assert(t[2].1 != uri);
    }
    if i > 3 {
        assert(t[3].1 != uri);
    }
    if i > 4 {
        assert(t[4].1 != uri);
    }
    if i > 5 {
        assert(t[5].1 != uri);
    }
    if i > 6 {
        assert(t[6].1 != uri);
    }
    if i > 7 {
        assert(t[7].1 != uri);
    }
}

/// Looks an extension URI up in the fixed ID table.
pub fn find_extmap_order(uri: &str) -> (r: Option<u16>)
    ensures
        r == fixed_extmap_id(uri@),
{
    let table = extmap_order();
    let ghost tv = table@.map_values(|p: (u16, String)| (p.0, p.1@));
    assert(tv.len() == 8);
    let mut i: usize = 0;
    while i < table.len()
        invariant
            table@.len() == 8,
            tv == fixed_extmap_table(),
            tv == table@.map_values(|p: (u16, String)| (p.0, p.1@)),
            i <= table.len(),
            forall|k: int| 0 <= k < i ==> tv[k].1 != uri@,
        decreases table.len() - i,
    {
        assert(tv[i as int] == (table[i as int].0, table[i as int].1@));
        if str_eq(table[i].1.as_str(), uri) {
            proof {
                lemma_fixed_table_lookup(uri@, i as int);
            }
            return Some(table[i].0);
        }
        i = i + 1;
    }
    proof {
        lemma_fixed_table_lookup(uri@, 8);
    }
    None
}

} // verus!
