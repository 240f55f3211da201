use crate::media::MediaType;
use vstd::prelude::*;

verus! {

/// An RTCP packet a subscriber sent back, as far as forwarding it to the
/// publisher depends on it.
pub enum FeedbackPacket {
    ReceiverReport,
    PictureLossIndication,
    /// A receiver estimated maximum bitrate, in bits per second.
    Remb { bitrate: u64 },
    Other,
}

/// What goes to the publisher for one packet of subscriber feedback.
#[derive(Debug, PartialEq, Eq, Structural)]
pub enum FeedbackAction {
    /// Forward a copy of the packet as it is.
    Forward,
    /// Send a fresh picture loss indication with these SSRCs.
    SendPli { sender_ssrc: u32, media_ssrc: u32 },
    /// Forward a copy of the REMB with its bitrate raised to this value.
    RaiseRemb { bitrate: u64 },
    /// Send nothing.
    Ignore,
}

/// The lowest REMB bitrate forwarded while a subscriber is young: browsers
/// probe very low at first, and a publisher must not throttle itself to an
/// unusable rate before the probing is over.
#[derive(Clone, Copy, Debug)]
pub struct RembPolicy {
    /// How long after the subscriber starts the floor applies, in seconds.
    pub window_secs: i64,
    /// The floor for video tracks, in bits per second.
    pub video_floor: u64,
    /// The floor for audio tracks, in bits per second.
    pub audio_floor: u64,
}

impl Default for RembPolicy {
    /// 128 kbit/s for video and 64 kbit/s for audio during the first 30 s.
    fn default() -> (r: RembPolicy)
        ensures
            r.window_secs == 30,
            r.video_floor == 128000,
            r.audio_floor == 64000,
    {
        RembPolicy { window_secs: 30, video_floor: 128000, audio_floor: 64000 }
    }
}

/// The floor that applies `elapsed_secs` after the subscriber started.
pub open spec fn remb_floor(policy: RembPolicy, media_type: MediaType, elapsed_secs: i64) -> Option<u64> {
    if elapsed_secs < policy.window_secs {
        Some(
            match media_type {
                MediaType::Video => policy.video_floor,
                MediaType::Audio => policy.audio_floor,
            },
        )
    } else {
        None
    }
}

/// Receiver reports go on as they are; a PLI becomes a fresh one for the
/// publisher's SSRC (sender SSRC 0); a REMB goes on, raised to the floor when
/// one applies and the bitrate is below it; anything else is dropped.
pub open spec fn feedback_action(
    packet: FeedbackPacket,
    media_ssrc: u32,
    media_type: MediaType,
    elapsed_secs: i64,
    policy: RembPolicy,
) -> FeedbackAction {
    match packet {
        FeedbackPacket::ReceiverReport => FeedbackAction::Forward,
        FeedbackPacket::PictureLossIndication => FeedbackAction::SendPli {
            sender_ssrc: 0,
            media_ssrc,
        },
        FeedbackPacket::Remb { bitrate } => match remb_floor(policy, media_type, elapsed_secs) {
            Some(floor) => if bitrate < floor {
                FeedbackAction::RaiseRemb { bitrate: floor }
            } else {
                FeedbackAction::Forward
            },
            None => FeedbackAction::Forward,
        },
        FeedbackPacket::Other => FeedbackAction::Ignore,
    }
}

/// Decides what a subscriber's RTCP packet becomes on its way to the
/// publisher whose track has SSRC `media_ssrc`, `elapsed_secs` seconds after
/// the subscriber started.
pub fn translate_feedback(
    packet: &FeedbackPacket,
    media_ssrc: u32,
    media_type: MediaType,
    elapsed_secs: i64,
    policy: &RembPolicy,
) -> (r: FeedbackAction)
    ensures
        r == feedback_action(*packet, media_ssrc, media_type, elapsed_secs, *policy),
{
    match packet {
        FeedbackPacket::ReceiverReport => FeedbackAction::Forward,
        FeedbackPacket::PictureLossIndication => FeedbackAction::SendPli {
            sender_ssrc: 0,
            media_ssrc,
        },
        FeedbackPacket::Remb { bitrate } => {
            if elapsed_secs < policy.window_secs {
                let floor = match media_type {
                    MediaType::Video => policy.video_floor,
                    MediaType::Audio => policy.audio_floor,
                };
                if *bitrate < floor {
                    FeedbackAction::RaiseRemb { bitrate: floor }
                } else {
                    FeedbackAction::Forward
                }
            } else {
                FeedbackAction::Forward
            }
        },
        FeedbackPacket::Other => FeedbackAction::Ignore,
    }
}

/// Within the window a REMB never reaches the publisher below the floor, and
/// after it every REMB is forwarded unchanged.
pub proof fn lemma_remb_floor(
    bitrate: u64,
    media_ssrc: u32,
    media_type: MediaType,
    elapsed_secs: i64,
    policy: RembPolicy,
)
    ensures
        ({
            let a = feedback_action(
                FeedbackPacket::Remb { bitrate },
                media_ssrc,
                media_type,
                elapsed_secs,
                policy,
            );
            &&& elapsed_secs >= policy.window_secs ==> a == FeedbackAction::Forward
            &&& elapsed_secs < policy.window_secs ==> match a {
                FeedbackAction::RaiseRemb { bitrate: b } => bitrate < b && b == remb_floor(
                    policy,
                    media_type,
                    elapsed_secs,
                )->Some_0,
                FeedbackAction::Forward => bitrate >= remb_floor(
                    policy,
                    media_type,
                    elapsed_secs,
                )->Some_0,
                _ => false,
            }
        }),
{
}

} // verus!
