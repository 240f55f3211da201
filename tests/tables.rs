use rheomesh::codecs::{default_audio_codecs, default_video_codecs, video_rtcp_feedback};
use rheomesh::config::{extmap_order, find_extmap_order, HeaderExtensionConfig, MediaConfig};
use rheomesh::media_engine::register_header_extensions;
use rheomesh::error::{
    track_not_found, Error, PublisherErrorKind, SubscriberErrorKind, TransportErrorKind,
};
use rheomesh::media::detect_mime_type;
use rheomesh::media::MediaType;
use rheomesh::media_engine::{build_media_engine, fixed_extensions, register_default_codecs, register_extensions};
use webrtc::api::media_engine::{MediaEngine, MIME_TYPE_H264, MIME_TYPE_OPUS, MIME_TYPE_VP8};
use webrtc::sdp::extmap;

#[test]
fn fixed_extmap_ids() {
    assert_eq!(find_extmap_order(extmap::AUDIO_LEVEL_URI), Some(1));
    assert_eq!(find_extmap_order(extmap::ABS_SEND_TIME_URI), Some(2));
    assert_eq!(find_extmap_order(extmap::TRANSPORT_CC_URI), Some(3));
    assert_eq!(find_extmap_order(extmap::SDES_MID_URI), Some(4));
    assert_eq!(find_extmap_order(extmap::SDES_RTP_STREAM_ID_URI), Some(10));
    assert_eq!(find_extmap_order(extmap::SDES_REPAIR_RTP_STREAM_ID_URI), Some(11));
    assert_eq!(find_extmap_order(extmap::VIDEO_ORIENTATION_URI), Some(13));
    assert_eq!(find_extmap_order("urn:ietf:params:rtp-hdrext:toffset"), Some(14));
    assert_eq!(find_extmap_order("urn:example"), None);
    assert_eq!(extmap_order().len(), 8);
}

#[test]
fn default_header_extensions() {
    let h = HeaderExtensionConfig::default();
    assert_eq!(
        h.audio,
        vec![extmap::AUDIO_LEVEL_URI, extmap::ABS_SEND_TIME_URI, extmap::TRANSPORT_CC_URI, extmap::SDES_MID_URI]
    );
    assert_eq!(
        h.video,
        vec![
            "urn:ietf:params:rtp-hdrext:toffset",
            extmap::SDES_MID_URI,
            extmap::SDES_RTP_STREAM_ID_URI,
            extmap::SDES_REPAIR_RTP_STREAM_ID_URI,
            extmap::ABS_SEND_TIME_URI
        ]
    );
    let m = MediaConfig::default();
    assert!(m.codec.audio.is_empty() && m.codec.video.is_empty());
}

#[test]
fn default_codec_tables() {
    let audio = default_audio_codecs();
    assert_eq!(audio.len(), 4);
    assert_eq!(audio[0].capability.mime_type, MIME_TYPE_OPUS);
    assert_eq!(audio[0].payload_type, 111);
    assert_eq!(audio[0].capability.clock_rate, 48000);
    assert_eq!(audio[0].capability.channels, 2);
    assert_eq!(audio[0].capability.sdp_fmtp_line, "minptime=10;useinbandfec=1");
    let video = default_video_codecs();
    assert_eq!(video.len(), 19);
    assert_eq!(video[1].capability.mime_type, MIME_TYPE_VP8);
    assert_eq!(video[1].payload_type, 96);
    assert_eq!(video[1].capability.rtcp_feedback.len(), 4);
    assert_eq!(video[2].capability.sdp_fmtp_line, "apt=96");
    assert!(video[2].capability.rtcp_feedback.is_empty());
    assert_eq!(video[16].capability.mime_type, MIME_TYPE_H264);
    assert_eq!(video[16].payload_type, 123);
    assert_eq!(video[18].capability.mime_type, "video/ulpfec");
    let fb = video_rtcp_feedback();
    assert_eq!(fb[0].typ, "goog-remb");
    assert_eq!(fb[3].typ, "nack");
    assert_eq!(fb[3].parameter, "pli");
}

#[test]
fn mime_type_detection() {
    assert_eq!(detect_mime_type("video/VP8".to_string()), MediaType::Video);
    assert_eq!(detect_mime_type("Video".to_string()), MediaType::Video);
    assert_eq!(detect_mime_type("audio/opus".to_string()), MediaType::Audio);
    assert_eq!(detect_mime_type("".to_string()), MediaType::Audio);
    assert_eq!(detect_mime_type("vide".to_string()), MediaType::Audio);
}

#[test]
fn error_constructors_and_text() {
    match Error::new_transport("boom".to_string(), TransportErrorKind::ICECandidateError) {
        Error::TransportError(e) => assert_eq!(e.to_text(), "ice candidate error: boom"),
        _ => panic!("wrong variant"),
    }
    match Error::new_publisher("x".to_string(), PublisherErrorKind::TrackNotPublishedError) {
        Error::PublisherError(e) => assert_eq!(e.to_text(), "track not published error: x"),
        _ => panic!("wrong variant"),
    }
    match track_not_found("v1") {
        Error::SubscriberError(e) => {
            assert_eq!(e.kind, SubscriberErrorKind::TrackNotFoundError);
            assert_eq!(e.message, "Publisher for v1 is not found");
            assert_eq!(e.to_text(), "track not found error: Publisher for v1 is not found");
        }
        _ => panic!("wrong variant"),
    }
}

#[test]
fn media_engine_registration() {
    let mut me = MediaEngine::default();
    assert!(register_default_codecs(&mut me).is_ok());
    assert!(register_extensions(&mut me).is_ok());
    assert!(build_media_engine(&MediaConfig::default()).is_ok());
    let fixed = fixed_extensions();
    assert_eq!(fixed.video[3], extmap::ABS_SEND_TIME_URI);
    assert_eq!(fixed.audio[3], extmap::AUDIO_LEVEL_URI);
}

#[test]
fn too_many_extensions_are_refused() {
    let mut config = MediaConfig::default();
    config.header_extension.audio = (0..17).map(|i| format!("urn:example:ext-{}", i)).collect();
    config.header_extension.video = vec![];
    assert!(matches!(build_media_engine(&config), Err(Error::WebRTCError(_))));
}

#[test]
fn sixteen_extensions_fit() {
    let mut config = MediaConfig::default();
    config.header_extension.audio = (0..10).map(|i| format!("urn:example:ext-{}", i)).collect();
    config.header_extension.video = (10..16).map(|i| format!("urn:example:ext-{}", i)).collect();
    assert!(build_media_engine(&config).is_ok());
}

#[test]
fn repeated_extension_counts_once() {
    let mut me = MediaEngine::default();
    let config = HeaderExtensionConfig {
        audio: vec![extmap::SDES_MID_URI.to_string(); 20],
        video: vec![extmap::SDES_MID_URI.to_string(); 20],
    };
    assert!(register_header_extensions(&mut me, &config).is_ok());
}
