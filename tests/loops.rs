use rheomesh::candidates::PendingCandidates;
use rheomesh::feedback::{translate_feedback, FeedbackAction, FeedbackPacket, RembPolicy};
use rheomesh::forwarding::{ForwardLoop, LoopAction, LoopEvent};
use rheomesh::media::MediaType;
use rheomesh::publish::find_published;
use rheomesh::signaling::Signaling;

#[test]
fn hundred_packets_arrive_in_order() {
    let mut ingress = ForwardLoop::new();
    let mut out = vec![];
    for seq in 0u16..100 {
        match ingress.step(LoopEvent::Received(seq, true)) {
            LoopAction::Forward(p) => out.push(p),
            _ => panic!("packet not forwarded"),
        }
    }
    assert_eq!(out, (0u16..100).collect::<Vec<u16>>());
}

#[test]
fn close_stops_forwarding() {
    let mut ingress = ForwardLoop::new();
    assert!(matches!(ingress.step(LoopEvent::Received(1u8, true)), LoopAction::Forward(1)));
    assert!(matches!(ingress.step(LoopEvent::<u8>::Closed), LoopAction::Stop));
    assert!(ingress.is_stopped());
    assert!(matches!(ingress.step(LoopEvent::Received(2u8, true)), LoopAction::Stop));
}

#[test]
fn read_error_stops_forwarding() {
    let mut ingress = ForwardLoop::new();
    assert!(matches!(ingress.step(LoopEvent::<u8>::ReadFailed), LoopAction::Stop));
    assert!(matches!(ingress.step(LoopEvent::Received(2u8, true)), LoopAction::Stop));
}

#[test]
fn message_for_closed_channel_is_skipped() {
    let mut data = ForwardLoop::new();
    assert!(matches!(data.step(LoopEvent::Received("m", false)), LoopAction::Skip));
    assert!(!data.is_stopped());
    assert!(matches!(data.step(LoopEvent::Received("n", true)), LoopAction::Forward("n")));
}

#[test]
fn pli_is_rewritten_to_publisher_ssrc() {
    let a = translate_feedback(&FeedbackPacket::PictureLossIndication, 0xdead_beef, MediaType::Video, 3, &RembPolicy::default());
    assert_eq!(a, FeedbackAction::SendPli { sender_ssrc: 0, media_ssrc: 0xdead_beef });
}

#[test]
fn remb_clamped_in_first_thirty_seconds() {
    let p = RembPolicy::default();
    let remb = FeedbackPacket::Remb { bitrate: 50_000 };
    assert_eq!(translate_feedback(&remb, 1, MediaType::Video, 10, &p), FeedbackAction::RaiseRemb { bitrate: 128_000 });
    assert_eq!(translate_feedback(&remb, 1, MediaType::Video, 29, &p), FeedbackAction::RaiseRemb { bitrate: 128_000 });
    assert_eq!(translate_feedback(&remb, 1, MediaType::Video, 30, &p), FeedbackAction::Forward);
    assert_eq!(translate_feedback(&remb, 1, MediaType::Video, 45, &p), FeedbackAction::Forward);
}

#[test]
fn remb_audio_floor_is_sixty_four_kbps() {
    let p = RembPolicy::default();
    let remb = FeedbackPacket::Remb { bitrate: 50_000 };
    assert_eq!(translate_feedback(&remb, 1, MediaType::Audio, 0, &p), FeedbackAction::RaiseRemb { bitrate: 64_000 });
    let high = FeedbackPacket::Remb { bitrate: 200_000 };
    assert_eq!(translate_feedback(&high, 1, MediaType::Video, 0, &p), FeedbackAction::Forward);
    let at_floor = FeedbackPacket::Remb { bitrate: 128_000 };
    assert_eq!(translate_feedback(&at_floor, 1, MediaType::Video, 0, &p), FeedbackAction::Forward);
}

#[test]
fn remb_policy_is_configurable() {
    let p = RembPolicy { window_secs: 5, video_floor: 300_000, audio_floor: 10 };
    let remb = FeedbackPacket::Remb { bitrate: 200_000 };
    assert_eq!(translate_feedback(&remb, 1, MediaType::Video, 4, &p), FeedbackAction::RaiseRemb { bitrate: 300_000 });
    assert_eq!(translate_feedback(&remb, 1, MediaType::Video, 5, &p), FeedbackAction::Forward);
}

#[test]
fn receiver_report_forwarded_other_ignored() {
    let p = RembPolicy::default();
    assert_eq!(translate_feedback(&FeedbackPacket::ReceiverReport, 1, MediaType::Audio, 0, &p), FeedbackAction::Forward);
    assert_eq!(translate_feedback(&FeedbackPacket::Other, 1, MediaType::Audio, 0, &p), FeedbackAction::Ignore);
}

#[test]
fn subscribe_then_answer_clears_pending() {
    let mut s = Signaling::new();
    assert!(!s.is_pending());
    assert!(s.try_claim());
    assert!(s.is_pending());
    assert!(!s.try_claim());
    assert!(!s.answer_applied());
    assert!(!s.is_pending());
}

#[test]
fn renegotiation_waits_for_answer_and_runs_once() {
    let mut s = Signaling::new();
    assert!(s.try_claim());
    assert!(!s.negotiation_needed());
    assert!(!s.try_claim());
    assert!(s.answer_applied());
    assert!(s.is_pending());
    assert!(!s.answer_applied());
    assert!(!s.is_pending());
}

#[test]
fn renegotiation_when_idle_starts_now() {
    let mut s = Signaling::new();
    assert!(s.negotiation_needed());
    assert!(s.is_pending());
}

#[test]
fn candidates_parked_until_remote_description() {
    let mut pending = PendingCandidates::new();
    assert_eq!(pending.add("c1", false), None);
    assert_eq!(pending.add("c2", false), None);
    assert_eq!(pending.len(), 2);
    assert_eq!(pending.flush(), vec!["c1", "c2"]);
    assert_eq!(pending.len(), 0);
    assert_eq!(pending.add("c3", true), Some("c3"));
    assert_eq!(pending.len(), 0);
}

#[test]
fn publish_resolves_on_matching_track() {
    let announced = vec!["a".to_string(), "v1".to_string(), "v1".to_string()];
    assert_eq!(find_published("v1", &announced), Some(1));
    assert_eq!(find_published("zz", &announced), None);
    assert_eq!(find_published("v1", &vec![]), None);
}
