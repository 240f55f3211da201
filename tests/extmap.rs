use rheomesh::error::Error;
use rheomesh::extmap::{adjust_extmap, find_extmap_order, rewrite_extmaps, PublishersExtmap};
use webrtc::rtp_transceiver::rtp_codec::RTCRtpHeaderExtensionParameters;
use webrtc::sdp::extmap;
use webrtc_sdp::attribute_type::{SdpAttribute, SdpAttributeExtmap, SdpAttributeType};
use webrtc_sdp::parse_sdp;

const EXT_TOFFSET: &str = "urn:ietf:params:rtp-hdrext:toffset";

fn ext(uri: &str, id: isize) -> RTCRtpHeaderExtensionParameters {
    RTCRtpHeaderExtensionParameters {
        uri: uri.to_owned(),
        id,
    }
}

fn session_head() -> String {
    "v=0\r\no=- 4215775240449105457 2 IN IP4 127.0.0.1\r\ns=-\r\nt=0 0\r\nc=IN IP4 0.0.0.0\r\n"
        .to_string()
}

fn media_section(kind: &str, pt: u8, codec: &str, mid: &str, track_id: &str, exts: &[(u16, &str)]) -> String {
    let mut m = format!(
        "m={} 9 UDP/TLS/RTP/SAVPF {}\r\na=mid:{}\r\na=sendonly\r\na=msid:stream-{} {}\r\na=rtpmap:{} {}\r\n",
        kind, pt, mid, mid, track_id, pt, codec
    );
    for (id, uri) in exts {
        m.push_str(&format!("a=extmap:{} {}\r\n", id, uri));
    }
    m
}

fn extmaps_by_mid(sdp: &str) -> Vec<(String, Vec<SdpAttributeExtmap>)> {
    let session = parse_sdp(sdp, false).expect("failed to parse sdp");
    session
        .media
        .iter()
        .map(|media| {
            let mid = match media.get_attribute(SdpAttributeType::Mid) {
                Some(SdpAttribute::Mid(mid)) => mid.clone(),
                _ => panic!("failed to find mid"),
            };
            let exts = media
                .get_attributes()
                .iter()
                .filter_map(|a| match a {
                    SdpAttribute::Extmap(e) => Some(e.clone()),
                    _ => None,
                })
                .collect();
            (mid, exts)
        })
        .collect()
}

fn check_extmap_index(publishers_extmap: PublishersExtmap, offer: &str, correct: &[(&str, Vec<(u16, &str)>)]) {
    let res = adjust_extmap(offer, &publishers_extmap).expect("failed to adjust extmap");
    let sections = extmaps_by_mid(&res);
    assert_eq!(sections.len(), correct.len());
    for (mid, exts) in sections {
        let (_, expected) = correct
            .iter()
            .find(|(m, _)| *m == mid)
            .expect("failed to find correct media");
        assert_eq!(exts.len(), expected.len());
        for e in exts.iter() {
            let (id, url) = expected
                .iter()
                .find(|(_, u)| *u == e.url)
                .expect("failed to find correct extmap");
            assert_eq!(e.id, *id);
            assert_eq!(e.url, *url);
        }
    }
}

fn video_publisher_exts() -> Vec<RTCRtpHeaderExtensionParameters> {
    vec![
        ext(EXT_TOFFSET, 14),
        ext(extmap::ABS_SEND_TIME_URI, 2),
        ext(extmap::VIDEO_ORIENTATION_URI, 13),
        ext(extmap::TRANSPORT_CC_URI, 3),
        ext(extmap::SDES_MID_URI, 4),
        ext(extmap::SDES_RTP_STREAM_ID_URI, 10),
        ext(extmap::SDES_REPAIR_RTP_STREAM_ID_URI, 11),
    ]
}

fn audio_publisher_exts() -> Vec<RTCRtpHeaderExtensionParameters> {
    vec![
        ext(extmap::AUDIO_LEVEL_URI, 1),
        ext(extmap::ABS_SEND_TIME_URI, 2),
        ext(extmap::TRANSPORT_CC_URI, 3),
        ext(extmap::SDES_MID_URI, 4),
    ]
}

fn server_video_exts() -> Vec<(u16, &'static str)> {
    vec![
        (1, extmap::SDES_MID_URI),
        (2, extmap::SDES_RTP_STREAM_ID_URI),
        (3, extmap::SDES_REPAIR_RTP_STREAM_ID_URI),
        (4, extmap::ABS_SEND_TIME_URI),
        (5, EXT_TOFFSET),
    ]
}

fn server_audio_exts() -> Vec<(u16, &'static str)> {
    vec![
        (1, extmap::SDES_MID_URI),
        (2, extmap::AUDIO_LEVEL_URI),
        (3, extmap::ABS_SEND_TIME_URI),
        (4, extmap::TRANSPORT_CC_URI),
    ]
}

#[test]
fn test_adjust_extmap_video() {
    let track = "b0734cb9-da91-4957-8957-25de07ab05d0";
    let publishers_extmap: PublishersExtmap = vec![(track.to_owned(), video_publisher_exts())];
    let offer = session_head() + &media_section("video", 96, "VP8/90000", "0", track, &server_video_exts());
    check_extmap_index(
        publishers_extmap,
        &offer,
        &[(
            "0",
            vec![
                (4, extmap::SDES_MID_URI),
                (10, extmap::SDES_RTP_STREAM_ID_URI),
                (11, extmap::SDES_REPAIR_RTP_STREAM_ID_URI),
                (2, extmap::ABS_SEND_TIME_URI),
                (14, EXT_TOFFSET),
            ],
        )],
    );
}

#[test]
fn test_adjust_extmap_audio() {
    let track = "17c3e6ab-4b11-47cb-bcab-8d8b88abe0d7";
    let publishers_extmap: PublishersExtmap = vec![(track.to_owned(), audio_publisher_exts())];
    let offer = session_head() + &media_section("audio", 111, "opus/48000/2", "0", track, &server_audio_exts());
    check_extmap_index(
        publishers_extmap,
        &offer,
        &[(
            "0",
            vec![
                (4, extmap::SDES_MID_URI),
                (1, extmap::AUDIO_LEVEL_URI),
                (2, extmap::ABS_SEND_TIME_URI),
                (3, extmap::TRANSPORT_CC_URI),
            ],
        )],
    );
}

#[test]
fn test_adjust_extmap_audio_video() {
    let audio = "9b7db7c1-b108-4c3e-aac8-b81301062ef6";
    let video = "0af5300f-99df-490d-8b06-c9f49ef95eb5";
    let publishers_extmap: PublishersExtmap = vec![
        (audio.to_owned(), audio_publisher_exts()),
        (video.to_owned(), video_publisher_exts()),
    ];
    let offer = session_head()
        + &media_section("audio", 111, "opus/48000/2", "0", audio, &server_audio_exts())
        + &media_section("video", 96, "VP8/90000", "1", video, &server_video_exts());
    check_extmap_index(
        publishers_extmap,
        &offer,
        &[
            (
                "0",
                vec![
                    (4, extmap::SDES_MID_URI),
                    (1, extmap::AUDIO_LEVEL_URI),
                    (2, extmap::ABS_SEND_TIME_URI),
                    (3, extmap::TRANSPORT_CC_URI),
                ],
            ),
            (
                "1",
                vec![
                    (4, extmap::SDES_MID_URI),
                    (10, extmap::SDES_RTP_STREAM_ID_URI),
                    (11, extmap::SDES_REPAIR_RTP_STREAM_ID_URI),
                    (2, extmap::ABS_SEND_TIME_URI),
                    (14, EXT_TOFFSET),
                ],
            ),
        ],
    );
}

#[test]
fn adjust_extmap_drops_uri_the_publisher_did_not_use() {
    let track = "v1";
    let publishers_extmap: PublishersExtmap =
        vec![(track.to_owned(), vec![ext(extmap::SDES_MID_URI, 9)])];
    let offer = session_head() + &media_section("video", 96, "VP8/90000", "0", track, &server_video_exts());
    check_extmap_index(publishers_extmap, &offer, &[("0", vec![(9, extmap::SDES_MID_URI)])]);
}

#[test]
fn adjust_extmap_leaves_unknown_track_untouched() {
    let publishers_extmap: PublishersExtmap = vec![("other".to_owned(), video_publisher_exts())];
    let offer = session_head() + &media_section("video", 96, "VP8/90000", "0", "v1", &server_video_exts());
    check_extmap_index(publishers_extmap, &offer, &[("0", server_video_exts())]);
}

#[test]
fn adjust_extmap_keeps_other_attributes() {
    let publishers_extmap: PublishersExtmap = vec![("v1".to_owned(), video_publisher_exts())];
    let offer = session_head() + &media_section("video", 96, "VP8/90000", "0", "v1", &server_video_exts());
    let res = adjust_extmap(&offer, &publishers_extmap).unwrap();
    let session = parse_sdp(&res, false).unwrap();
    let media = &session.media[0];
    assert!(matches!(media.get_attribute(SdpAttributeType::Msid), Some(SdpAttribute::Msid(m)) if m.appdata.as_deref() == Some("v1")));
    assert!(media.get_attribute(SdpAttributeType::Rtpmap).is_some());
    assert!(media.get_attribute(SdpAttributeType::Sendonly).is_some());
}

#[test]
fn adjust_extmap_refuses_text_that_is_not_sdp() {
    let publishers_extmap: PublishersExtmap = vec![];
    let res = adjust_extmap("not an sdp", &publishers_extmap);
    assert!(matches!(res, Err(Error::SdpError(_))));
}

#[test]
fn publisher_extmap_first_entry_wins() {
    let exts = vec![ext(extmap::SDES_MID_URI, 5), ext(extmap::SDES_MID_URI, 7)];
    assert_eq!(find_extmap_order(extmap::SDES_MID_URI, &exts), Some(5));
    assert_eq!(find_extmap_order(extmap::AUDIO_LEVEL_URI, &exts), None);
}

#[test]
fn publisher_extmap_id_out_of_range_is_absent() {
    let exts = vec![ext(extmap::SDES_MID_URI, 70000), ext(extmap::SDES_MID_URI, 4)];
    assert_eq!(find_extmap_order(extmap::SDES_MID_URI, &exts), None);
    let exts = vec![ext(extmap::SDES_MID_URI, -1)];
    assert_eq!(find_extmap_order(extmap::SDES_MID_URI, &exts), None);
}

#[test]
fn rewrite_keeps_order_and_direction() {
    let found = vec![
        SdpAttributeExtmap {
            id: 1,
            direction: None,
            url: extmap::SDES_MID_URI.to_owned(),
            extension_attributes: None,
        },
        SdpAttributeExtmap {
            id: 2,
            direction: None,
            url: "urn:example:unknown".to_owned(),
            extension_attributes: Some("x".to_owned()),
        },
        SdpAttributeExtmap {
            id: 3,
            direction: None,
            url: extmap::ABS_SEND_TIME_URI.to_owned(),
            extension_attributes: Some("y".to_owned()),
        },
    ];
    let out = rewrite_extmaps(found, &video_publisher_exts());
    assert_eq!(out.len(), 2);
    assert_eq!(out[0].id, 4);
    assert_eq!(out[0].url, extmap::SDES_MID_URI);
    assert_eq!(out[1].id, 2);
    assert_eq!(out[1].extension_attributes.as_deref(), Some("y"));
}
