use vstd::prelude::*;
use webrtc::rtp_transceiver::rtp_codec::{RTCRtpCodecCapability, RTCRtpCodecParameters};
use webrtc::rtp_transceiver::RTCPFeedback;

verus! {

/// webrtc's RTCP feedback mechanism of a codec: type and parameter.
#[verifier::external_type_specification]
pub struct ExRTCPFeedback(RTCPFeedback);

/// webrtc's codec capability: MIME type, clock rate, channels, fmtp line, feedback.
#[verifier::external_type_specification]
pub struct ExRTCRtpCodecCapability(RTCRtpCodecCapability);

/// webrtc's codec parameters: a capability and its payload type.
#[verifier::external_type_specification]
pub struct ExRTCRtpCodecParameters(RTCRtpCodecParameters);

/// The mathematical value of a codec's parameters.
pub struct CodecModel {
    pub mime_type: Seq<char>,
    pub clock_rate: u32,
    pub channels: u16,
    pub sdp_fmtp_line: Seq<char>,
    pub rtcp_feedback: Seq<(Seq<char>, Seq<char>)>,
    pub payload_type: u8,
}

pub open spec fn feedback_view(f: Seq<RTCPFeedback>) -> Seq<(Seq<char>, Seq<char>)> {
    f.map_values(|x: RTCPFeedback| (x.typ@, x.parameter@))
}

pub open spec fn codec_view(c: RTCRtpCodecParameters) -> CodecModel {
    CodecModel {
        mime_type: c.capability.mime_type@,
        clock_rate: c.capability.clock_rate,
        channels: c.capability.channels,
        sdp_fmtp_line: c.capability.sdp_fmtp_line@,
        rtcp_feedback: feedback_view(c.capability.rtcp_feedback@),
        payload_type: c.payload_type,
    }
}

pub open spec fn codecs_view(c: Seq<RTCRtpCodecParameters>) -> Seq<CodecModel> {
    c.map_values(|x: RTCRtpCodecParameters| codec_view(x))
}

/// The feedback every default video codec announces: goog-remb, ccm fir,
/// nack and nack pli.
pub open spec fn video_feedback_spec() -> Seq<(Seq<char>, Seq<char>)> {
    seq![("goog-remb"@, ""@), ("ccm"@, "fir"@), ("nack"@, ""@), ("nack"@, "pli"@)]
}

pub open spec fn codec_spec(
    mime_type: Seq<char>,
    clock_rate: u32,
    channels: u16,
    sdp_fmtp_line: Seq<char>,
    with_feedback: bool,
    payload_type: u8,
) -> CodecModel {
    CodecModel {
        mime_type,
        clock_rate,
        channels,
        sdp_fmtp_line,
        rtcp_feedback: if with_feedback { video_feedback_spec() } else { seq![] },
        payload_type,
    }
}

/// The default audio codecs: Opus, G722, PCMU and PCMA.
pub open spec fn default_audio_codecs_spec() -> Seq<CodecModel> {
    seq![
        codec_spec("audio/opus"@, 48000, 2, "minptime=10;useinbandfec=1"@, false, 111),
        codec_spec("audio/G722"@, 8000, 0, ""@, false, 9),
        codec_spec("audio/PCMU"@, 8000, 0, ""@, false, 0),
        codec_spec("audio/PCMA"@, 8000, 0, ""@, false, 8),
    ]
}

/// The default video codecs: VP8, VP9 and H264 profiles with their
/// retransmission (rtx) companions, and ulpfec.
pub open spec fn default_video_codecs_spec() -> Seq<CodecModel> {
    seq![
        codec_spec("video/VP9"@, 90000, 0, "profile-id=0"@, true, 98),
        codec_spec("video/VP8"@, 90000, 0, ""@, true, 96),
        codec_spec("video/rtx"@, 90000, 0, "apt=96"@, false, 97),
        codec_spec("video/rtx"@, 90000, 0, "apt=98"@, false, 99),
        codec_spec("video/VP9"@, 90000, 0, "profile-id=1"@, true, 100),
        codec_spec("video/rtx"@, 90000, 0, "apt=100"@, false, 101),
        codec_spec("video/H264"@, 90000, 0, "level-asymmetry-allowed=1;packetization-mode=1;profile-level-id=42001f"@, true, 102),
        codec_spec("video/rtx"@, 90000, 0, "apt=102"@, false, 121),
        codec_spec("video/H264"@, 90000, 0, "level-asymmetry-allowed=1;packetization-mode=0;profile-level-id=42001f"@, true, 127),
        codec_spec("video/rtx"@, 90000, 0, "apt=127"@, false, 120),
        codec_spec("video/H264"@, 90000, 0, "level-asymmetry-allowed=1;packetization-mode=1;profile-level-id=42e01f"@, true, 125),
        codec_spec("video/rtx"@, 90000, 0, "apt=125"@, false, 107),
        codec_spec("video/H264"@, 90000, 0, "level-asymmetry-allowed=1;packetization-mode=0;profile-level-id=42e01f"@, true, 108),
        codec_spec("video/rtx"@, 90000, 0, "apt=108"@, false, 109),
        codec_spec("video/H264"@, 90000, 0, "level-asymmetry-allowed=1;packetization-mode=0;profile-level-id=42001f"@, true, 127),
        codec_spec("video/rtx"@, 90000, 0, "apt=127"@, false, 120),
        codec_spec("video/H264"@, 90000, 0, "level-asymmetry-allowed=1;packetization-mode=1;profile-level-id=640032"@, true, 123),
        codec_spec("video/rtx"@, 90000, 0, "apt=123"@, false, 118),
        codec_spec("video/ulpfec"@, 90000, 0, ""@, false, 116),
    ]
}

fn feedback(typ: &str, parameter: &str) -> (r: RTCPFeedback)
    ensures
        r.typ@ == typ@,
        r.parameter@ == parameter@,
{
    RTCPFeedback { typ: String::from_str(typ), parameter: String::from_str(parameter) }
}

/// The feedback mechanisms announced for each default video codec.
pub fn video_rtcp_feedback() -> (r: Vec<RTCPFeedback>)
    ensures
        feedback_view(r@) == video_feedback_spec(),
{
    let mut v: Vec<RTCPFeedback> = Vec::new();
    v.push(feedback("goog-remb", ""));
    v.push(feedback("ccm", "fir"));
    v.push(feedback("nack", ""));
    v.push(feedback("nack", "pli"));
    assert(feedback_view(v@) =~= video_feedback_spec());
    v
}

fn codec(
    mime_type: &str,
    clock_rate: u32,
    channels: u16,
    sdp_fmtp_line: &str,
    with_feedback: bool,
    payload_type: u8,
) -> (r: RTCRtpCodecParameters)
    ensures
        codec_view(r) == codec_spec(mime_type@, clock_rate, channels, sdp_fmtp_line@, with_feedback, payload_type),
{
    let rtcp_feedback = if with_feedback {
        video_rtcp_feedback()
    } else {
        let e: Vec<RTCPFeedback> = Vec::new();
        assert(feedback_view(e@) =~= seq![]);
        e
    };
    RTCRtpCodecParameters {
        capability: RTCRtpCodecCapability {
            mime_type: String::from_str(mime_type),
            clock_rate,
            channels,
            sdp_fmtp_line: String::from_str(sdp_fmtp_line),
            rtcp_feedback,
        },
        payload_type,
        stats_id: String::new(),
    }
}

/// The audio codecs installed when the configuration names none.
pub fn default_audio_codecs() -> (r: Vec<RTCRtpCodecParameters>)
    ensures
        codecs_view(r@) == default_audio_codecs_spec(),
{
    let mut v: Vec<RTCRtpCodecParameters> = Vec::new();
    v.push(codec("audio/opus", 48000, 2, "minptime=10;useinbandfec=1", false, 111));
    v.push(codec("audio/G722", 8000, 0, "", false, 9));
    v.push(codec("audio/PCMU", 8000, 0, "", false, 0));
    v.push(codec("audio/PCMA", 8000, 0, "", false, 8));
    assert(codecs_view(v@) =~= default_audio_codecs_spec());
    v
}

/// The video codecs installed when the configuration names none.
pub fn default_video_codecs() -> (r: Vec<RTCRtpCodecParameters>)
    ensures
        codecs_view(r@) == default_video_codecs_spec(),
{
    let mut v: Vec<RTCRtpCodecParameters> = Vec::new();
    v.push(codec("video/VP9", 90000, 0, "profile-id=0", true, 98));
    v.push(codec("video/VP8", 90000, 0, "", true, 96));
    v.push(codec("video/rtx", 90000, 0, "apt=96", false, 97));
    v.push(codec("video/rtx", 90000, 0, "apt=98", false, 99));
    v.push(codec("video/VP9", 90000, 0, "profile-id=1", true, 100));
    v.push(codec("video/rtx", 90000, 0, "apt=100", false, 101));
    v.push(codec("video/H264", 90000, 0, "level-asymmetry-allowed=1;packetization-mode=1;profile-level-id=42001f", true, 102));
    v.push(codec("video/rtx", 90000, 0, "apt=102", false, 121));
    v.push(codec("video/H264", 90000, 0, "level-asymmetry-allowed=1;packetization-mode=0;profile-level-id=42001f", true, 127));
    v.push(codec("video/rtx", 90000, 0, "apt=127", false, 120));
    v.push(codec("video/H264", 90000, 0, "level-asymmetry-allowed=1;packetization-mode=1;profile-level-id=42e01f", true, 125));
    v.push(codec("video/rtx", 90000, 0, "apt=125", false, 107));
    v.push(codec("video/H264", 90000, 0, "level-asymmetry-allowed=1;packetization-mode=0;profile-level-id=42e01f", true, 108));
    v.push(codec("video/rtx", 90000, 0, "apt=108", false, 109));
    v.push(codec("video/H264", 90000, 0, "level-asymmetry-allowed=1;packetization-mode=0;profile-level-id=42001f", true, 127));
    v.push(codec("video/rtx", 90000, 0, "apt=127", false, 120));
    v.push(codec("video/H264", 90000, 0, "level-asymmetry-allowed=1;packetization-mode=1;profile-level-id=640032", true, 123));
    v.push(codec("video/rtx", 90000, 0, "apt=123", false, 118));
    v.push(codec("video/ulpfec", 90000, 0, "", false, 116));
    assert(codecs_view(v@) =~= default_video_codecs_spec());
    v
}

} // verus!
