use crate::codecs::{
    codec_spec, feedback_view, codec_view, codecs_view, default_audio_codecs, default_audio_codecs_spec, default_video_codecs,
    default_video_codecs_spec, CodecModel,
};
use crate::config::{
    abs_send_time_uri, audio_level_uri, sdes_mid_uri, sdes_repair_rtp_stream_id_uri,
    sdes_rtp_stream_id_uri, strings_view, CodecConfig, HeaderExtensionConfig, MediaConfig,
};
use crate::error::Error;
use crate::media::MediaType;
use vstd::prelude::*;
use webrtc::api::media_engine::MediaEngine;
use webrtc::rtp_transceiver::rtp_codec::{
    RTCRtpCodecCapability, RTCRtpCodecParameters, RTCRtpHeaderExtensionCapability, RTPCodecType,
};
use webrtc::rtp_transceiver::RTCPFeedback;

verus! {

/// webrtc's media engine, read through the names below.
#[verifier::external_type_specification]
#[verifier::external_body]
pub struct ExMediaEngine(MediaEngine);

/// The audio codecs a media engine holds, in the order they were registered.
pub uninterp spec fn engine_audio_codecs(me: MediaEngine) -> Seq<CodecModel>;

/// The video codecs a media engine holds, in the order they were registered.
pub uninterp spec fn engine_video_codecs(me: MediaEngine) -> Seq<CodecModel>;

/// A codec list after registering `c`: unchanged when a codec with the same
/// MIME type and payload type is there already, else `c` is appended.
pub open spec fn with_codec(list: Seq<CodecModel>, c: CodecModel) -> Seq<CodecModel> {
    if exists|i: int|
        0 <= i < list.len() && (#[trigger] list[i]).mime_type == c.mime_type && list[i].payload_type
            == c.payload_type {
        list
    } else {
        list.push(c)
    }
}

/// A codec list after registering each of `cs` in order.
pub open spec fn with_codecs(list: Seq<CodecModel>, cs: Seq<CodecModel>) -> Seq<CodecModel>
    decreases cs.len(),
{
    if cs.len() == 0 {
        list
    } else {
        with_codec(with_codecs(list, cs.drop_last()), cs.last())
    }
}

/// webrtc's own default audio codecs: Opus, G722, PCMU and PCMA.
pub open spec fn webrtc_default_audio_codecs() -> Seq<CodecModel> {
    seq![
        codec_spec("audio/opus"@, 48000, 2, "minptime=10;useinbandfec=1"@, false, 111),
        codec_spec("audio/G722"@, 8000, 0, ""@, false, 9),
        codec_spec("audio/PCMU"@, 8000, 0, ""@, false, 0),
        codec_spec("audio/PCMA"@, 8000, 0, ""@, false, 8),
    ]
}

/// webrtc's own default video codecs: VP8, VP9, H264 profiles, AV1 and
/// ulpfec.
pub open spec fn webrtc_default_video_codecs() -> Seq<CodecModel> {
    seq![
        codec_spec("video/VP8"@, 90000, 0, ""@, true, 96),
        codec_spec("video/VP9"@, 90000, 0, "profile-id=0"@, true, 98),
        codec_spec("video/VP9"@, 90000, 0, "profile-id=1"@, true, 100),
        codec_spec("video/H264"@, 90000, 0, "level-asymmetry-allowed=1;packetization-mode=1;profile-level-id=42001f"@, true, 102),
        codec_spec("video/H264"@, 90000, 0, "level-asymmetry-allowed=1;packetization-mode=0;profile-level-id=42001f"@, true, 127),
        codec_spec("video/H264"@, 90000, 0, "level-asymmetry-allowed=1;packetization-mode=1;profile-level-id=42e01f"@, true, 125),
        codec_spec("video/H264"@, 90000, 0, "level-asymmetry-allowed=1;packetization-mode=0;profile-level-id=42e01f"@, true, 108),
        codec_spec("video/H264"@, 90000, 0, "level-asymmetry-allowed=1;packetization-mode=0;profile-level-id=42001f"@, true, 127),
        codec_spec("video/H264"@, 90000, 0, "level-asymmetry-allowed=1;packetization-mode=1;profile-level-id=640032"@, true, 123),
        codec_spec("video/AV1"@, 90000, 0, "profile-id=0"@, true, 41),
        codec_spec("video/ulpfec"@, 90000, 0, ""@, false, 116),
    ]
}

/// One header extension registered with a media engine: its URI, whether
/// audio and video tracks use it, and whether it matches every transceiver
/// direction.
pub struct HeaderExtensionModel {
    pub uri: Seq<char>,
    pub is_audio: bool,
    pub is_video: bool,
    pub any_direction: bool,
}

/// The header extensions a media engine holds, in the order they were first
/// registered.
pub uninterp spec fn engine_header_extensions(me: MediaEngine) -> Seq<HeaderExtensionModel>;

/// The position of the first extension from `i` on with URI `uri`.
pub open spec fn extension_index(exts: Seq<HeaderExtensionModel>, uri: Seq<char>, i: int) -> Option<
    int,
>
    decreases exts.len() - i,
{
    if i < 0 || i >= exts.len() {
        None
    } else if exts[i].uri == uri {
        Some(i)
    } else {
        extension_index(exts, uri, i + 1)
    }
}

/// Whether an extension is used by the given kind of media.
pub open spec fn used_by(e: HeaderExtensionModel, kind: MediaType) -> bool {
    match kind {
        MediaType::Audio => e.is_audio,
        MediaType::Video => e.is_video,
    }
}

/// An extension marked as used by `kind` too.
pub open spec fn mark_kind(e: HeaderExtensionModel, kind: MediaType) -> HeaderExtensionModel {
    match kind {
        MediaType::Audio => HeaderExtensionModel { is_audio: true, ..e },
        MediaType::Video => HeaderExtensionModel { is_video: true, ..e },
    }
}

/// The extensions after registering `uri` for `kind` and every direction, and
/// whether the registration succeeded. A known URI is marked for `kind`; it
/// succeeds when that extension matches every direction. A new URI is
/// appended, unless 16 extensions are registered already: then nothing
/// changes and it fails.
pub open spec fn with_extension(exts: Seq<HeaderExtensionModel>, uri: Seq<char>, kind: MediaType) -> (
    Seq<HeaderExtensionModel>,
    bool,
) {
    match extension_index(exts, uri, 0) {
        Some(k) => (exts.update(k, mark_kind(exts[k], kind)), exts[k].any_direction),
        None => if exts.len() > 15 {
            (exts, false)
        } else {
            (
                exts.push(
                    mark_kind(
                        HeaderExtensionModel {
                            uri,
                            is_audio: false,
                            is_video: false,
                            any_direction: true,
                        },
                        kind,
                    ),
                ),
                true,
            )
        },
    }
}

/// The extensions after registering each of `uris` for `kind` in order, or
/// none when one of the registrations fails.
pub open spec fn with_extensions(
    exts: Seq<HeaderExtensionModel>,
    uris: Seq<Seq<char>>,
    kind: MediaType,
) -> Option<Seq<HeaderExtensionModel>>
    decreases uris.len(),
{
    if uris.len() == 0 {
        Some(exts)
    } else {
        match with_extensions(exts, uris.drop_last(), kind) {
            None => None,
            Some(e) => {
                let (e2, ok) = with_extension(e, uris.last(), kind);
                if ok {
                    Some(e2)
                } else {
                    None
                }
            },
        }
    }
}

/// The extensions after registering the audio URIs, then the video URIs.
pub open spec fn with_config_extensions(
    exts: Seq<HeaderExtensionModel>,
    audio: Seq<Seq<char>>,
    video: Seq<Seq<char>>,
) -> Option<Seq<HeaderExtensionModel>> {
    match with_extensions(exts, audio, MediaType::Audio) {
        Some(a) => with_extensions(a, video, MediaType::Video),
        None => None,
    }
}

/// `uri` is registered and used by `kind`.
pub open spec fn registered_for(exts: Seq<HeaderExtensionModel>, uri: Seq<char>, kind: MediaType) -> bool {
    exists|i: int| 0 <= i < exts.len() && exts[i].uri == uri && #[trigger] used_by(exts[i], kind)
}

/// Every extension matches every transceiver direction.
pub open spec fn all_any_direction(exts: Seq<HeaderExtensionModel>) -> bool {
    forall|i: int| 0 <= i < exts.len() ==> #[trigger] exts[i].any_direction
}

proof fn lemma_extension_index(exts: Seq<HeaderExtensionModel>, uri: Seq<char>, i: int)
    requires
        0 <= i <= exts.len(),
    ensures
        extension_index(exts, uri, i) matches Some(k) ==> i <= k < exts.len() && exts[k].uri == uri,
        extension_index(exts, uri, i) is None ==> forall|j: int|
            i <= j < exts.len() ==> exts[j].uri != uri,
    decreases exts.len() - i,
{
    if i < exts.len() {
        lemma_extension_index(exts, uri, i + 1);
    }
}

/// One registration keeps what was registered, registers `uri` when it
/// succeeds, succeeds when it fits, and adds at most one extension.
proof fn lemma_with_extension(exts: Seq<HeaderExtensionModel>, uri: Seq<char>, kind: MediaType)
    ensures
        ({
            let (f, ok) = with_extension(exts, uri, kind);
            &&& forall|u: Seq<char>, k: MediaType|
                registered_for(exts, u, k) ==> #[trigger] registered_for(f, u, k)
            &&& ok ==> registered_for(f, uri, kind)
            &&& f.len() <= exts.len() + 1
            &&& all_any_direction(exts) && exts.len() <= 15 ==> ok && all_any_direction(f)
        }),
{
    lemma_extension_index(exts, uri, 0);
    let (f, ok) = with_extension(exts, uri, kind);
    assert forall|u: Seq<char>, k: MediaType| registered_for(exts, u, k) implies #[trigger] registered_for(
        f,
        u,
        k,
    ) by {
        let i = choose|i: int| 0 <= i < exts.len() && exts[i].uri == u && #[trigger] used_by(exts[i], k);
        assert(f[i].uri == u && used_by(f[i], k));
    }
    if ok {
        match extension_index(exts, uri, 0) {
            Some(k) => {
                assert(f[k].uri == uri && used_by(f[k], kind));
            },
            None => {
                assert(f[exts.len() as int].uri == uri && used_by(f[exts.len() as int], kind));
            },
        }
    }
    if all_any_direction(exts) && exts.len() <= 15 {
        assert forall|i: int| 0 <= i < f.len() implies #[trigger] f[i].any_direction by {
            if i < exts.len() {
                assert(exts[i].any_direction);
            }
        }
        match extension_index(exts, uri, 0) {
            Some(k) => {
                assert(exts[k].any_direction);
            },
            None => {},
        }
    }
}

/// A run of registrations that succeeds registers every URI of the run and
/// keeps what was registered before.
proof fn lemma_with_extensions(exts: Seq<HeaderExtensionModel>, uris: Seq<Seq<char>>, kind: MediaType)
    requires
        with_extensions(exts, uris, kind) is Some,
    ensures
        forall|j: int|
            0 <= j < uris.len() ==> registered_for(
                with_extensions(exts, uris, kind)->Some_0,
                #[trigger] uris[j],
                kind,
            ),
        forall|u: Seq<char>, k: MediaType|
            registered_for(exts, u, k) ==> #[trigger] registered_for(
                with_extensions(exts, uris, kind)->Some_0,
                u,
                k,
            ),
    decreases uris.len(),
{
    if uris.len() > 0 {
        let prev = uris.drop_last();
        lemma_with_extensions(exts, prev, kind);
        let e = with_extensions(exts, prev, kind)->Some_0;
        lemma_with_extension(e, uris.last(), kind);
        let f = with_extensions(exts, uris, kind)->Some_0;
        assert forall|j: int| 0 <= j < uris.len() implies registered_for(f, #[trigger] uris[j], kind) by {
            if j < prev.len() {
                assert(prev[j] == uris[j]);
                assert(registered_for(e, prev[j], kind));
            }
        }
    }
}

/// Registrations that fit succeed: starting from extensions that match every
/// direction, a run of URIs succeeds when at most 16 extensions could result.
proof fn lemma_extensions_fit(exts: Seq<HeaderExtensionModel>, uris: Seq<Seq<char>>, kind: MediaType)
    requires
        all_any_direction(exts),
        exts.len() + uris.len() <= 16,
    ensures
        with_extensions(exts, uris, kind) is Some,
        all_any_direction(with_extensions(exts, uris, kind)->Some_0),
        with_extensions(exts, uris, kind)->Some_0.len() <= exts.len() + uris.len(),
    decreases uris.len(),
{
    if uris.len() > 0 {
        let prev = uris.drop_last();
        lemma_extensions_fit(exts, prev, kind);
        let e = with_extensions(exts, prev, kind)->Some_0;
        lemma_with_extension(e, uris.last(), kind);
    }
}

/// A run that fails part way fails as a whole.
proof fn lemma_failure_sticks(
    exts: Seq<HeaderExtensionModel>,
    uris: Seq<Seq<char>>,
    n: int,
    kind: MediaType,
)
    requires
        0 <= n <= uris.len(),
        with_extensions(exts, uris.subrange(0, n), kind) is None,
    ensures
        with_extensions(exts, uris, kind) is None,
    decreases uris.len(),
{
    if n == uris.len() {
        assert(uris.subrange(0, n) =~= uris);
    } else {
        let prev = uris.drop_last();
        assert(prev.subrange(0, n) =~= uris.subrange(0, n));
        lemma_failure_sticks(exts, prev, n, kind);
    }
}

/// The codecs of one kind a media engine holds.
pub open spec fn engine_codecs(me: MediaEngine, kind: MediaType) -> Seq<CodecModel> {
    match kind {
        MediaType::Audio => engine_audio_codecs(me),
        MediaType::Video => engine_video_codecs(me),
    }
}

/// Relies on `MediaEngine::default`: an engine with no codec registered.
#[verifier::external_body]
fn new_media_engine() -> (r: MediaEngine)
    ensures
        engine_audio_codecs(r) == Seq::<CodecModel>::empty(),
        engine_video_codecs(r) == Seq::<CodecModel>::empty(),
        engine_header_extensions(r) == Seq::<HeaderExtensionModel>::empty(),
{
    MediaEngine::default()
}

/// Relies on MediaEngine::register_default_codecs, which registers webrtc's
/// own default audio codecs, then its video codecs, each through
/// `register_codec`.
#[verifier::external_body]
fn register_engine_default_codecs(me: &mut MediaEngine)
    ensures
        engine_audio_codecs(*final(me)) == with_codecs(
            engine_audio_codecs(*old(me)),
            webrtc_default_audio_codecs(),
        ),
        engine_video_codecs(*final(me)) == with_codecs(
            engine_video_codecs(*old(me)),
            webrtc_default_video_codecs(),
        ),
        engine_header_extensions(*final(me)) == engine_header_extensions(*old(me)),
{
    let _ = me.register_default_codecs();
}

/// Relies on MediaEngine::register_codec, which accepts every audio or video
/// codec (it fails only for an unspecified codec type) and appends it to the
/// list of its kind unless one with the same MIME type and payload type is
/// there.
#[verifier::external_body]
fn register_codec(me: &mut MediaEngine, codec: RTCRtpCodecParameters, kind: MediaType)
    ensures
        engine_codecs(*final(me), kind) == with_codec(engine_codecs(*old(me), kind), codec_view(codec)),
        kind is Audio ==> engine_video_codecs(*final(me)) == engine_video_codecs(*old(me)),
        kind is Video ==> engine_audio_codecs(*final(me)) == engine_audio_codecs(*old(me)),
        engine_header_extensions(*final(me)) == engine_header_extensions(*old(me)),
{
    let typ = match kind {
        MediaType::Audio => RTPCodecType::Audio,
        MediaType::Video => RTPCodecType::Video,
    };
    let _ = me.register_codec(codec, typ);
}

/// Relies on MediaEngine::register_header_extension, for every transceiver
/// direction (`None`): a known URI is marked for the kind, and the call fails
/// when that extension was registered for a narrower direction; a new URI is
/// appended, unless more than 15 are registered. Its error comes back as the
/// text webrtc gives it. It never touches the codecs.
#[verifier::external_body]
fn register_header_extension(me: &mut MediaEngine, uri: String, kind: MediaType) -> (r: Result<
    (),
    String,
>)
    ensures
        (engine_header_extensions(*final(me)), r is Ok) == with_extension(
            engine_header_extensions(*old(me)),
            uri@,
            kind,
        ),
        engine_audio_codecs(*final(me)) == engine_audio_codecs(*old(me)),
        engine_video_codecs(*final(me)) == engine_video_codecs(*old(me)),
{
    let typ = match kind {
        MediaType::Audio => RTPCodecType::Audio,
        MediaType::Video => RTPCodecType::Video,
    };
    me.register_header_extension(RTCRtpHeaderExtensionCapability { uri }, typ, None).map_err(
        |e| e.to_string(),
    )
}

/// Registers a list of codecs, in order, for one kind of media.
fn register_codec_list(me: &mut MediaEngine, codecs: Vec<RTCRtpCodecParameters>, kind: MediaType)
    ensures
        engine_codecs(*final(me), kind) == with_codecs(
            engine_codecs(*old(me), kind),
            codecs_view(codecs@),
        ),
        kind is Audio ==> engine_video_codecs(*final(me)) == engine_video_codecs(*old(me)),
        kind is Video ==> engine_audio_codecs(*final(me)) == engine_audio_codecs(*old(me)),
        engine_header_extensions(*final(me)) == engine_header_extensions(*old(me)),
{
    let ghost all = codecs@;
    let ghost start = *me;
    let mut rest = codecs;
    while rest.len() > 0
        invariant
            rest@.len() <= all.len(),
            rest@ == all.subrange(all.len() - rest@.len(), all.len() as int),
            engine_codecs(*me, kind) == with_codecs(
                engine_codecs(start, kind),
                codecs_view(all.subrange(0, all.len() - rest@.len())),
            ),
            kind is Audio ==> engine_video_codecs(*me) == engine_video_codecs(start),
            kind is Video ==> engine_audio_codecs(*me) == engine_audio_codecs(start),
            engine_header_extensions(*me) == engine_header_extensions(start),
            start == *old(me),
        decreases rest@.len(),
    {
        let ghost done = all.len() - rest@.len();
        let codec = rest.remove(0);
        assert(codec == all[done]);
        assert(codecs_view(all.subrange(0, done + 1)).drop_last() =~= codecs_view(
            all.subrange(0, done),
        ));
        register_codec(me, codec, kind);
        assert(rest@ =~= all.subrange(all.len() - rest@.len(), all.len() as int));
    }
    assert(all.subrange(0, all.len() as int) =~= all);
}

/// Registers the default audio and video codecs: Opus, G722, PCMU and PCMA;
/// VP8, VP9 and H264 with their rtx companions, and ulpfec.
pub fn register_default_codecs(me: &mut MediaEngine) -> (r: Result<(), Error>)
    ensures
        r is Ok,
        engine_audio_codecs(*final(me)) == with_codecs(
            engine_audio_codecs(*old(me)),
            default_audio_codecs_spec(),
        ),
        engine_video_codecs(*final(me)) == with_codecs(
            engine_video_codecs(*old(me)),
            default_video_codecs_spec(),
        ),
        engine_header_extensions(*final(me)) == engine_header_extensions(*old(me)),
{
    register_codec_list(me, default_audio_codecs(), MediaType::Audio);
    register_codec_list(me, default_video_codecs(), MediaType::Video);
    Ok(())
}

/// A copy of a codec list.
fn copy_codecs(codecs: &Vec<RTCRtpCodecParameters>) -> (r: Vec<RTCRtpCodecParameters>)
    ensures
        codecs_view(r@) == codecs_view(codecs@),
{
    let mut out: Vec<RTCRtpCodecParameters> = Vec::new();
    let mut i: usize = 0;
    while i < codecs.len()
        invariant
            i <= codecs@.len(),
            codecs_view(out@) == codecs_view(codecs@.subrange(0, i as int)),
        decreases codecs.len() - i,
    {
        let c = &codecs[i];
        let copy = RTCRtpCodecParameters {
            capability: RTCRtpCodecCapability {
                mime_type: c.capability.mime_type.clone(),
                clock_rate: c.capability.clock_rate,
                channels: c.capability.channels,
                sdp_fmtp_line: c.capability.sdp_fmtp_line.clone(),
                rtcp_feedback: copy_feedback(&c.capability.rtcp_feedback),
            },
            payload_type: c.payload_type,
            stats_id: c.stats_id.clone(),
        };
        let ghost prev = out@;
        out.push(copy);
        assert(codecs_view(out@) =~= codecs_view(prev).push(codec_view(copy)));
        assert(codecs_view(codecs@.subrange(0, i + 1)) =~= codecs_view(
            codecs@.subrange(0, i as int),
        ).push(codec_view(codecs@[i as int])));
        i = i + 1;
    }
    assert(codecs@.subrange(0, i as int) =~= codecs@);
    out
}

/// A copy of a list of RTCP feedback mechanisms.
fn copy_feedback(f: &Vec<RTCPFeedback>) -> (r: Vec<RTCPFeedback>)
    ensures
        feedback_view(r@) == feedback_view(f@),
{
    let mut out: Vec<RTCPFeedback> = Vec::new();
    let mut i: usize = 0;
    while i < f.len()
        invariant
            i <= f@.len(),
            feedback_view(out@) == feedback_view(f@.subrange(0, i as int)),
        decreases f.len() - i,
    {
        let copy = RTCPFeedback { typ: f[i].typ.clone(), parameter: f[i].parameter.clone() };
        let ghost prev = out@;
        out.push(copy);
        assert(feedback_view(out@) =~= feedback_view(prev).push((copy.typ@, copy.parameter@)));
        assert(feedback_view(f@.subrange(0, i + 1)) =~= feedback_view(f@.subrange(0, i as int)).push(
            (f@[i as int].typ@, f@[i as int].parameter@),
        ));
        i = i + 1;
    }
    assert(f@.subrange(0, i as int) =~= f@);
    out
}

/// Registers the configured codecs; when the configuration names none,
/// webrtc's default codecs are registered instead.
pub fn register_codecs(me: &mut MediaEngine, config: &CodecConfig) -> (r: Result<(), Error>)
    ensures
        r is Ok,
        config.audio@.len() > 0 || config.video@.len() > 0 ==> {
            &&& engine_audio_codecs(*final(me)) == with_codecs(
                engine_audio_codecs(*old(me)),
                codecs_view(config.audio@),
            )
            &&& engine_video_codecs(*final(me)) == with_codecs(
                engine_video_codecs(*old(me)),
                codecs_view(config.video@),
            )
        },
        config.audio@.len() == 0 && config.video@.len() == 0 ==> {
            &&& engine_audio_codecs(*final(me)) == with_codecs(
                engine_audio_codecs(*old(me)),
                webrtc_default_audio_codecs(),
            )
            &&& engine_video_codecs(*final(me)) == with_codecs(
                engine_video_codecs(*old(me)),
                webrtc_default_video_codecs(),
            )
        },
        engine_header_extensions(*final(me)) == engine_header_extensions(*old(me)),
{
    if config.audio.len() > 0 || config.video.len() > 0 {
        register_codec_list(me, copy_codecs(&config.audio), MediaType::Audio);
        register_codec_list(me, copy_codecs(&config.video), MediaType::Video);
    } else {
        register_engine_default_codecs(me);
    }
    Ok(())
}

/// Registers header extensions by URI, in order, for one kind of media. The
/// first refusal ends the registration and is returned.
fn register_extension_list(me: &mut MediaEngine, uris: &Vec<String>, kind: MediaType) -> (r: Result<
    (),
    Error,
>)
    ensures
        r matches Err(e) ==> e is WebRTCError,
        r is Ok <==> with_extensions(
            engine_header_extensions(*old(me)),
            strings_view(uris@),
            kind,
        ) is Some,
        r is Ok ==> engine_header_extensions(*final(me)) == with_extensions(
            engine_header_extensions(*old(me)),
            strings_view(uris@),
            kind,
        )->Some_0,
        engine_audio_codecs(*final(me)) == engine_audio_codecs(*old(me)),
        engine_video_codecs(*final(me)) == engine_video_codecs(*old(me)),
{
    let ghost start = *me;
    let ghost names = strings_view(uris@);
    let mut i: usize = 0;
    while i < uris.len()
        invariant
            i <= uris@.len(),
            names == strings_view(uris@),
            start == *old(me),
            with_extensions(engine_header_extensions(start), names.subrange(0, i as int), kind)
                == Some(engine_header_extensions(*me)),
            engine_audio_codecs(*me) == engine_audio_codecs(start),
            engine_video_codecs(*me) == engine_video_codecs(start),
        decreases uris.len() - i,
    {
        let uri = uris[i].clone();
        assert(names.subrange(0, i + 1).drop_last() =~= names.subrange(0, i as int));
        assert(names.subrange(0, i + 1).last() == uri@);
        match register_header_extension(me, uri, kind) {
            Ok(()) => {},
            Err(e) => {
                proof {
                    lemma_failure_sticks(engine_header_extensions(start), names, i + 1, kind);
                }
                return Err(Error::WebRTCError(e));
            },
        }
        i = i + 1;
    }
    assert(names.subrange(0, i as int) =~= names);
    Ok(())
}

/// Registers the configured header extensions, audio first. It succeeds
/// exactly when every registration does, which is so whenever the engine's
/// extensions match every direction and at most 16 can result; then every
/// configured URI is registered for its kind.
pub fn register_header_extensions(me: &mut MediaEngine, config: &HeaderExtensionConfig) -> (r: Result<
    (),
    Error,
>)
    ensures
        r matches Err(e) ==> e is WebRTCError,
        r is Ok <==> with_config_extensions(
            engine_header_extensions(*old(me)),
            strings_view(config.audio@),
            strings_view(config.video@),
        ) is Some,
        r is Ok ==> engine_header_extensions(*final(me)) == with_config_extensions(
            engine_header_extensions(*old(me)),
            strings_view(config.audio@),
            strings_view(config.video@),
        )->Some_0,
        r is Ok ==> forall|j: int|
            0 <= j < config.audio@.len() ==> registered_for(
                engine_header_extensions(*final(me)),
                #[trigger] config.audio@[j]@,
                MediaType::Audio,
            ),
        r is Ok ==> forall|j: int|
            0 <= j < config.video@.len() ==> registered_for(
                engine_header_extensions(*final(me)),
                #[trigger] config.video@[j]@,
                MediaType::Video,
            ),
        all_any_direction(engine_header_extensions(*old(me))) && engine_header_extensions(
            *old(me),
        ).len() + config.audio@.len() + config.video@.len() <= 16 ==> r is Ok,
        engine_audio_codecs(*final(me)) == engine_audio_codecs(*old(me)),
        engine_video_codecs(*final(me)) == engine_video_codecs(*old(me)),
{
    let ghost start = engine_header_extensions(*me);
    let ghost audio = strings_view(config.audio@);
    let ghost video = strings_view(config.video@);
    proof {
        if all_any_direction(start) && start.len() + audio.len() + video.len() <= 16 {
            lemma_extensions_fit(start, audio, MediaType::Audio);
            let a = with_extensions(start, audio, MediaType::Audio)->Some_0;
            lemma_extensions_fit(a, video, MediaType::Video);
        }
    }
    register_extension_list(me, &config.audio, MediaType::Audio)?;
    let ghost mid = engine_header_extensions(*me);
    let r = register_extension_list(me, &config.video, MediaType::Video);
    proof {
        if r is Ok {
            lemma_with_extensions(start, audio, MediaType::Audio);
            lemma_with_extensions(mid, video, MediaType::Video);
            let f = engine_header_extensions(*me);
            assert forall|j: int| 0 <= j < config.audio@.len() implies registered_for(
                f,
                #[trigger] config.audio@[j]@,
                MediaType::Audio,
            ) by {
                assert(audio[j] == config.audio@[j]@);
                assert(registered_for(mid, audio[j], MediaType::Audio));
            }
            assert forall|j: int| 0 <= j < config.video@.len() implies registered_for(
                f,
                #[trigger] config.video@[j]@,
                MediaType::Video,
            ) by {
                assert(video[j] == config.video@[j]@);
            }
        }
    }
    r
}

/// The extensions of the fixed registration, for video.
pub open spec fn fixed_video_extensions() -> Seq<Seq<char>> {
    seq![sdes_mid_uri(), sdes_rtp_stream_id_uri(), sdes_repair_rtp_stream_id_uri(), abs_send_time_uri()]
}

/// The extensions of the fixed registration, for audio.
pub open spec fn fixed_audio_extensions() -> Seq<Seq<char>> {
    seq![sdes_mid_uri(), sdes_rtp_stream_id_uri(), sdes_repair_rtp_stream_id_uri(), audio_level_uri()]
}

/// The extensions after registering the fixed video URIs, then the fixed
/// audio URIs.
pub open spec fn with_fixed_extensions(exts: Seq<HeaderExtensionModel>) -> Option<
    Seq<HeaderExtensionModel>,
> {
    match with_extensions(exts, fixed_video_extensions(), MediaType::Video) {
        Some(v) => with_extensions(v, fixed_audio_extensions(), MediaType::Audio),
        None => None,
    }
}

/// The fixed set of header extensions: sdes mid, rtp-stream-id and
/// repaired-rtp-stream-id for both kinds, abs-send-time for video and
/// audio-level for audio.
pub fn fixed_extensions() -> (r: HeaderExtensionConfig)
    ensures
        strings_view(r.video@) == fixed_video_extensions(),
        strings_view(r.audio@) == fixed_audio_extensions(),
{
    let mut video: Vec<String> = Vec::new();
    video.push(String::from_str("urn:ietf:params:rtp-hdrext:sdes:mid"));
    video.push(String::from_str("urn:ietf:params:rtp-hdrext:sdes:rtp-stream-id"));
    video.push(String::from_str("urn:ietf:params:rtp-hdrext:sdes:repaired-rtp-stream-id"));
    video.push(String::from_str("http://www.webrtc.org/experiments/rtp-hdrext/abs-send-time"));
    let mut audio: Vec<String> = Vec::new();
    audio.push(String::from_str("urn:ietf:params:rtp-hdrext:sdes:mid"));
    audio.push(String::from_str("urn:ietf:params:rtp-hdrext:sdes:rtp-stream-id"));
    audio.push(String::from_str("urn:ietf:params:rtp-hdrext:sdes:repaired-rtp-stream-id"));
    audio.push(String::from_str("urn:ietf:params:rtp-hdrext:ssrc-audio-level"));
    assert(strings_view(video@) =~= fixed_video_extensions());
    assert(strings_view(audio@) =~= fixed_audio_extensions());
    HeaderExtensionConfig { audio, video }
}

/// Registers the fixed set of header extensions, video first. It succeeds
/// exactly when every registration does, which is so whenever the engine's
/// extensions match every direction and at most 8 are registered; then every
/// fixed URI is registered for its kind.
pub fn register_extensions(media_engine: &mut MediaEngine) -> (r: Result<(), Error>)
    ensures
        r matches Err(e) ==> e is WebRTCError,
        r is Ok <==> with_fixed_extensions(engine_header_extensions(*old(media_engine))) is Some,
        r is Ok ==> forall|j: int|
            0 <= j < 4 ==> registered_for(
                engine_header_extensions(*final(media_engine)),
                #[trigger] fixed_video_extensions()[j],
                MediaType::Video,
            ) && registered_for(
                engine_header_extensions(*final(media_engine)),
                fixed_audio_extensions()[j],
                MediaType::Audio,
            ),
        all_any_direction(engine_header_extensions(*old(media_engine))) && engine_header_extensions(
            *old(media_engine),
        ).len() <= 8 ==> r is Ok,
        engine_audio_codecs(*final(media_engine)) == engine_audio_codecs(*old(media_engine)),
        engine_video_codecs(*final(media_engine)) == engine_video_codecs(*old(media_engine)),
{
    let ghost start = engine_header_extensions(*media_engine);
    let fixed = fixed_extensions();
    proof {
        if all_any_direction(start) && start.len() <= 8 {
            lemma_extensions_fit(start, fixed_video_extensions(), MediaType::Video);
            let v = with_extensions(start, fixed_video_extensions(), MediaType::Video)->Some_0;
            lemma_extensions_fit(v, fixed_audio_extensions(), MediaType::Audio);
        }
    }
    register_extension_list(media_engine, &fixed.video, MediaType::Video)?;
    let ghost mid = engine_header_extensions(*media_engine);
    let r = register_extension_list(media_engine, &fixed.audio, MediaType::Audio);
    proof {
        if r is Ok {
            lemma_with_extensions(start, fixed_video_extensions(), MediaType::Video);
            lemma_with_extensions(mid, fixed_audio_extensions(), MediaType::Audio);
            let f = engine_header_extensions(*media_engine);
            assert forall|j: int| 0 <= j < 4 implies registered_for(
                f,
                #[trigger] fixed_video_extensions()[j],
                MediaType::Video,
            ) && registered_for(f, fixed_audio_extensions()[j], MediaType::Audio) by {
                assert(registered_for(mid, fixed_video_extensions()[j], MediaType::Video));
            }
        }
    }
    r
}

/// A media engine with the configuration's codecs (webrtc's default codecs
/// when it names none) and its header extensions registered. It fails
/// exactly when an extension registration does, which cannot happen when the
/// configuration names at most 16 extensions.
pub fn build_media_engine(config: &MediaConfig) -> (r: Result<MediaEngine, Error>)
    ensures
        r matches Err(e) ==> e is WebRTCError,
        r is Ok <==> with_config_extensions(
            seq![],
            strings_view(config.header_extension.audio@),
            strings_view(config.header_extension.video@),
        ) is Some,
        config.header_extension.audio@.len() + config.header_extension.video@.len() <= 16 ==> r is Ok,
        r matches Ok(me) ==> {
            &&& engine_header_extensions(me) == with_config_extensions(
                seq![],
                strings_view(config.header_extension.audio@),
                strings_view(config.header_extension.video@),
            )->Some_0
            &&& forall|j: int|
                0 <= j < config.header_extension.audio@.len() ==> registered_for(
                    engine_header_extensions(me),
                    #[trigger] config.header_extension.audio@[j]@,
                    MediaType::Audio,
                )
            &&& forall|j: int|
                0 <= j < config.header_extension.video@.len() ==> registered_for(
                    engine_header_extensions(me),
                    #[trigger] config.header_extension.video@[j]@,
                    MediaType::Video,
                )
        },
        r matches Ok(me) ==> (config.codec.audio@.len() > 0 || config.codec.video@.len() > 0 ==> {
            &&& engine_audio_codecs(me) == with_codecs(seq![], codecs_view(config.codec.audio@))
            &&& engine_video_codecs(me) == with_codecs(seq![], codecs_view(config.codec.video@))
        }),
        r matches Ok(me) ==> (config.codec.audio@.len() == 0 && config.codec.video@.len() == 0 ==> {
            &&& engine_audio_codecs(me) == with_codecs(seq![], webrtc_default_audio_codecs())
            &&& engine_video_codecs(me) == with_codecs(seq![], webrtc_default_video_codecs())
        }),
{
    let mut me = new_media_engine();
    let _ = register_codecs(&mut me, &config.codec);
    assert(all_any_direction(engine_header_extensions(me)));
    register_header_extensions(&mut me, &config.header_extension)?;
    Ok(me)
}

} // verus!
