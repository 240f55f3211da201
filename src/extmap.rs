use crate::error::Error;
use crate::text::str_eq;
use vstd::prelude::*;
use webrtc::rtp_transceiver::rtp_codec::RTCRtpHeaderExtensionParameters;
use webrtc_sdp::attribute_type::{
    SdpAttribute, SdpAttributeDirection, SdpAttributeExtmap, SdpAttributeType,
};
use webrtc_sdp::error::SdpParserError;
use webrtc_sdp::SdpSession;

verus! {

/// webrtc's record of a negotiated header extension: its URI and ID.
#[verifier::external_type_specification]
pub struct ExHeaderExtensionParameters(RTCRtpHeaderExtensionParameters);

/// webrtc_sdp's extmap direction, carried through unread.
#[verifier::external_type_specification]
#[verifier::external_body]
pub struct ExSdpAttributeDirection(SdpAttributeDirection);

/// webrtc_sdp's extmap attribute: ID, direction, URI, extension attributes.
#[verifier::external_type_specification]
pub struct ExSdpAttributeExtmap(SdpAttributeExtmap);

/// webrtc_sdp's attribute of a session or media section, carried unread.
#[verifier::external_type_specification]
#[verifier::external_body]
pub struct ExSdpAttribute(SdpAttribute);

/// webrtc_sdp's parsed session description, read through the items below.
#[verifier::external_type_specification]
#[verifier::external_body]
pub struct ExSdpSession(SdpSession);

/// The ID the publisher used for the extension `url`: the ID of the first
/// entry from position `i` on whose URI is `url`, when it fits in 16 bits.
pub open spec fn publisher_id_from(
    url: Seq<char>,
    exts: Seq<RTCRtpHeaderExtensionParameters>,
    i: int,
) -> Option<u16>
    decreases exts.len() - i,
{
    if i < 0 || i >= exts.len() {
        None
    } else if exts[i].uri@ == url {
        if 0 <= exts[i].id <= u16::MAX {
            Some(exts[i].id as u16)
        } else {
            None
        }
    } else {
        publisher_id_from(url, exts, i + 1)
    }
}

/// The ID the publisher used for the extension `url`, if any.
pub open spec fn publisher_id(url: Seq<char>, exts: Seq<RTCRtpHeaderExtensionParameters>) -> Option<u16> {
    publisher_id_from(url, exts, 0)
}

/// A subscriber-side extmap list rewritten to the publisher's IDs: each entry
/// keeps its place and everything but its ID, takes the publisher's ID for its
/// URI, and is dropped when the publisher has no such URI.
pub open spec fn rewrite_spec(
    found: Seq<SdpAttributeExtmap>,
    exts: Seq<RTCRtpHeaderExtensionParameters>,
) -> Seq<SdpAttributeExtmap>
    decreases found.len(),
{
    if found.len() == 0 {
        seq![]
    } else {
        let prev = rewrite_spec(found.drop_last(), exts);
        let a = found.last();
        match publisher_id(a.url@, exts) {
            Some(id) => prev.push(SdpAttributeExtmap { id, ..a }),
            None => prev,
        }
    }
}

/// Finds the ID the publisher used for the extension `url`.
pub fn find_extmap_order(url: &str, extmaps: &Vec<RTCRtpHeaderExtensionParameters>) -> (r: Option<
    u16,
>)
    ensures
        r == publisher_id(url@, extmaps@),
{
    let mut i: usize = 0;
    while i < extmaps.len()
        invariant
            i <= extmaps@.len(),
            publisher_id_from(url@, extmaps@, i as int) == publisher_id(url@, extmaps@),
        decreases extmaps.len() - i,
    {
        if str_eq(extmaps[i].uri.as_str(), url) {
            let id = extmaps[i].id;
            if 0 <= id && id <= 65535 {
                return Some(id as u16);
            } else {
                return None;
            }
        }
        i = i + 1;
    }
    None
}

/// Rewrites the extmap attributes of one media section to the IDs the
/// publisher used, dropping those the publisher did not use.
pub fn rewrite_extmaps(
    found: Vec<SdpAttributeExtmap>,
    extmaps: &Vec<RTCRtpHeaderExtensionParameters>,
) -> (r: Vec<SdpAttributeExtmap>)
    ensures
        r@ == rewrite_spec(found@, extmaps@),
{
    let ghost all = found@;
    let mut rest = found;
    let mut out: Vec<SdpAttributeExtmap> = Vec::new();
    while rest.len() > 0
        invariant
            rest@.len() <= all.len(),
            rest@ == all.subrange(all.len() - rest@.len(), all.len() as int),
            out@ == rewrite_spec(all.subrange(0, all.len() - rest@.len()), extmaps@),
        decreases rest@.len(),
    {
        let ghost done = all.len() - rest@.len();
        let mut attr = rest.remove(0);
        assert(all.subrange(0, done + 1).drop_last() =~= all.subrange(0, done));
        assert(attr == all[done]);
        match find_extmap_order(attr.url.as_str(), extmaps) {
            Some(id) => {
                attr.id = id;
                out.push(attr);
            },
            None => {},
        }
        assert(rest@ =~= all.subrange(all.len() - rest@.len(), all.len() as int));
    }
    assert(all.subrange(0, all.len() as int) =~= all);
    out
}

/// The session that webrtc_sdp parses from a text, or none where it refuses
/// the text.
pub uninterp spec fn sdp_parse(text: Seq<char>) -> Option<SdpSession>;

/// The text that webrtc_sdp writes for a session.
pub uninterp spec fn sdp_render(s: SdpSession) -> Seq<char>;

/// For each media section of a session, the appdata of its first msid
/// attribute: the ID of the track the section carries.
pub uninterp spec fn sdp_track_ids(s: SdpSession) -> Seq<Option<Seq<char>>>;

/// For each media section of a session, its attributes in order: the extmap
/// ones as they are, any other as none.
pub uninterp spec fn sdp_attributes(s: SdpSession) -> Seq<Seq<Option<SdpAttributeExtmap>>>;

/// For each media section of a session, its attributes that are not extmap
/// attributes, in order.
pub uninterp spec fn sdp_other_attributes(s: SdpSession) -> Seq<Seq<SdpAttribute>>;

/// A session with the attribute list of every media section left empty:
/// its session-level fields and attributes and its media lines.
pub uninterp spec fn sdp_skeleton(s: SdpSession) -> SdpSession;

pub open spec fn opt_view(o: Option<String>) -> Option<Seq<char>> {
    match o {
        Some(s) => Some(s@),
        None => None,
    }
}

/// Relies on webrtc_sdp::parse_sdp, which does not fail on warnings here:
/// the session it builds depends on the text alone.
#[verifier::external_body]
fn parse_session(text: &str) -> (r: Result<SdpSession, SdpParserError>)
    ensures
        match r {
            Ok(s) => sdp_parse(text@) == Some(s),
            Err(_) => sdp_parse(text@) is None,
        },
{
    webrtc_sdp::parse_sdp(text, false)
}

/// Relies on the `Display` of webrtc_sdp's SdpSession.
#[verifier::external_body]
fn render_session(s: &SdpSession) -> (r: String)
    ensures
        r@ == sdp_render(*s),
{
    s.to_string()
}

/// Relies on the `media` field of SdpSession: one entry per media section.
#[verifier::external_body]
fn media_count(s: &SdpSession) -> (r: usize)
    ensures
        r == sdp_track_ids(*s).len(),
        r == sdp_attributes(*s).len(),
{
    s.media.len()
}

/// Relies on SdpMedia::get_attribute, which finds the first msid attribute
/// of the section.
#[verifier::external_body]
fn media_track_id(s: &SdpSession, i: usize) -> (r: Option<String>)
    requires
        i < sdp_track_ids(*s).len(),
    ensures
        opt_view(r) == sdp_track_ids(*s)[i as int],
{
    match s.media[i].get_attribute(SdpAttributeType::Msid) {
        Some(SdpAttribute::Msid(msid)) => msid.appdata.clone(),
        _ => None,
    }
}

/// Relies on SdpMedia::get_attributes: the attributes of a section in order.
#[verifier::external_body]
fn media_attribute_count(s: &SdpSession, i: usize) -> (r: usize)
    requires
        i < sdp_attributes(*s).len(),
    ensures
        r == sdp_attributes(*s)[i as int].len(),
{
    s.media[i].get_attributes().len()
}

/// Relies on SdpMedia::get_attributes: the `j`th attribute of a section,
/// handed out when it is an extmap attribute.
#[verifier::external_body]
fn media_attribute_extmap(s: &SdpSession, i: usize, j: usize) -> (r: Option<SdpAttributeExtmap>)
    requires
        i < sdp_attributes(*s).len(),
        j < sdp_attributes(*s)[i as int].len(),
    ensures
        r == sdp_attributes(*s)[i as int][j as int],
{
    match &s.media[i].get_attributes()[j] {
        SdpAttribute::Extmap(e) => Some(e.clone()),
        _ => None,
    }
}

/// Relies on SdpMedia::remove_attribute: every extmap attribute of the
/// section goes, the others stay in their order, and nothing else of the
/// session changes.
#[verifier::external_body]
fn remove_extmaps(s: &mut SdpSession, i: usize)
    requires
        i < sdp_attributes(*old(s)).len(),
    ensures
        sdp_track_ids(*final(s)) == sdp_track_ids(*old(s)),
        sdp_attributes(*final(s)) == sdp_attributes(*old(s)).update(
            i as int,
            sdp_attributes(*old(s))[i as int].filter(|a: Option<SdpAttributeExtmap>| a is None),
        ),
        sdp_other_attributes(*final(s)) == sdp_other_attributes(*old(s)),
        sdp_skeleton(*final(s)) == sdp_skeleton(*old(s)),
{
    s.media[i].remove_attribute(SdpAttributeType::Extmap)
}

/// Relies on SdpMedia::add_attribute, which accepts an extmap attribute in a
/// media section and appends it; nothing else of the session changes.
#[verifier::external_body]
fn add_extmap(s: &mut SdpSession, i: usize, e: SdpAttributeExtmap)
    requires
        i < sdp_attributes(*old(s)).len(),
    ensures
        sdp_track_ids(*final(s)) == sdp_track_ids(*old(s)),
        sdp_attributes(*final(s)) == sdp_attributes(*old(s)).update(
            i as int,
            sdp_attributes(*old(s))[i as int].push(Some(e)),
        ),
        sdp_other_attributes(*final(s)) == sdp_other_attributes(*old(s)),
        sdp_skeleton(*final(s)) == sdp_skeleton(*old(s)),
{
    let _ = s.media[i].add_attribute(SdpAttribute::Extmap(e));
}

/// The header extensions each publisher used, by track ID.
pub type PublishersExtmap = Vec<(String, Vec<RTCRtpHeaderExtensionParameters>)>;

/// The extensions of the first publisher from position `i` on whose track ID
/// is `id`.
pub open spec fn lookup_from(
    m: Seq<(String, Vec<RTCRtpHeaderExtensionParameters>)>,
    id: Seq<char>,
    i: int,
) -> Option<Seq<RTCRtpHeaderExtensionParameters>>
    decreases m.len() - i,
{
    if i < 0 || i >= m.len() {
        None
    } else if m[i].0@ == id {
        Some(m[i].1@)
    } else {
        lookup_from(m, id, i + 1)
    }
}

pub open spec fn lookup_extmaps(
    m: Seq<(String, Vec<RTCRtpHeaderExtensionParameters>)>,
    id: Seq<char>,
) -> Option<Seq<RTCRtpHeaderExtensionParameters>> {
    lookup_from(m, id, 0)
}

/// The extmap attributes among a section's attributes, in order.
pub open spec fn extmaps_of(attrs: Seq<Option<SdpAttributeExtmap>>) -> Seq<SdpAttributeExtmap> {
    attrs.filter_map(|a: Option<SdpAttributeExtmap>| a)
}

/// A section's attributes after reconciliation: untouched when the section
/// names no track or the track has no publisher entry; otherwise the extmap
/// attributes move to the end, rewritten to the publisher's IDs.
pub open spec fn section_after(
    attrs: Seq<Option<SdpAttributeExtmap>>,
    track_id: Option<Seq<char>>,
    m: Seq<(String, Vec<RTCRtpHeaderExtensionParameters>)>,
) -> Seq<Option<SdpAttributeExtmap>> {
    match track_id {
        None => attrs,
        Some(t) => match lookup_extmaps(m, t) {
            None => attrs,
            Some(exts) => attrs.filter(|a: Option<SdpAttributeExtmap>| a is None) + rewrite_spec(
                extmaps_of(attrs),
                exts,
            ).map_values(|e: SdpAttributeExtmap| Some(e)),
        },
    }
}

/// `after` is `before` with every media section reconciled against `m`:
/// only extmap attributes differ; the other attributes, the media lines and
/// the session-level fields are the same.
pub open spec fn reconciled(
    before: SdpSession,
    after: SdpSession,
    m: Seq<(String, Vec<RTCRtpHeaderExtensionParameters>)>,
) -> bool {
    &&& sdp_track_ids(after) == sdp_track_ids(before)
    &&& sdp_other_attributes(after) == sdp_other_attributes(before)
    &&& sdp_skeleton(after) == sdp_skeleton(before)
    &&& sdp_attributes(after).len() == sdp_attributes(before).len()
    &&& forall|i: int|
        0 <= i < sdp_attributes(before).len() ==> #[trigger] sdp_attributes(after)[i]
            == section_after(sdp_attributes(before)[i], sdp_track_ids(before)[i], m)
}

/// Every extmap attribute a rewrite keeps carries the publisher's own ID for
/// its URI.
pub proof fn lemma_rewrite_ids_match(
    found: Seq<SdpAttributeExtmap>,
    exts: Seq<RTCRtpHeaderExtensionParameters>,
)
    ensures
        forall|j: int|
            0 <= j < rewrite_spec(found, exts).len() ==> publisher_id(
                #[trigger] rewrite_spec(found, exts)[j].url@,
                exts,
            ) == Some(rewrite_spec(found, exts)[j].id),
    decreases found.len(),
{
    if found.len() > 0 {
        lemma_rewrite_ids_match(found.drop_last(), exts);
    }
}

/// In an offer reconciled against the publishers' extensions, every extmap
/// attribute of a section whose track has a publisher entry carries exactly
/// the ID that publisher used for its URI: none is left with another ID.
pub proof fn lemma_reconciled_ids_match(
    before: SdpSession,
    after: SdpSession,
    m: Seq<(String, Vec<RTCRtpHeaderExtensionParameters>)>,
    i: int,
    j: int,
)
    requires
        reconciled(before, after, m),
        0 <= i < sdp_attributes(before).len(),
        sdp_track_ids(before)[i] is Some,
        lookup_extmaps(m, sdp_track_ids(before)[i]->Some_0) is Some,
        0 <= j < sdp_attributes(after)[i].len(),
        sdp_attributes(after)[i][j] is Some,
    ensures
        publisher_id(
            sdp_attributes(after)[i][j]->Some_0.url@,
            lookup_extmaps(m, sdp_track_ids(before)[i]->Some_0)->Some_0,
        ) == Some(sdp_attributes(after)[i][j]->Some_0.id),
{
    let attrs = sdp_attributes(before)[i];
    let exts = lookup_extmaps(m, sdp_track_ids(before)[i]->Some_0)->Some_0;
    let kept = attrs.filter(|a: Option<SdpAttributeExtmap>| a is None);
    let rewritten = rewrite_spec(extmaps_of(attrs), exts);
    let mapped = rewritten.map_values(|e: SdpAttributeExtmap| Some(e));
    assert(sdp_attributes(after)[i] == kept + mapped);
    lemma_rewrite_ids_match(extmaps_of(attrs), exts);
    if j < kept.len() {
        attrs.lemma_filter_pred(|a: Option<SdpAttributeExtmap>| a is None, j);
        assert(sdp_attributes(after)[i][j] == kept[j]);
    } else {
        assert(sdp_attributes(after)[i][j] == mapped[j - kept.len()]);
        assert(mapped[j - kept.len()] == Some(rewritten[j - kept.len()]));
    }
}

/// Finds the publisher entry for a track ID.
fn lookup_publisher(m: &PublishersExtmap, id: &str) -> (r: Option<usize>)
    ensures
        match r {
            Some(k) => k < m@.len() && lookup_extmaps(m@, id@) == Some(m@[k as int].1@),
            None => lookup_extmaps(m@, id@) is None,
        },
{
    let mut i: usize = 0;
    while i < m.len()
        invariant
            i <= m@.len(),
            lookup_from(m@, id@, i as int) == lookup_extmaps(m@, id@),
        decreases m.len() - i,
    {
        if str_eq(m[i].0.as_str(), id) {
            return Some(i);
        }
        i = i + 1;
    }
    None
}

/// The extmap attributes of media section `i`, in order.
fn collect_extmaps(s: &SdpSession, i: usize) -> (r: Vec<SdpAttributeExtmap>)
    requires
        i < sdp_attributes(*s).len(),
    ensures
        r@ == extmaps_of(sdp_attributes(*s)[i as int]),
{
    let ghost attrs = sdp_attributes(*s)[i as int];
    let n = media_attribute_count(s, i);
    let mut out: Vec<SdpAttributeExtmap> = Vec::new();
    let mut j: usize = 0;
    while j < n
        invariant
            n == attrs.len(),
            attrs == sdp_attributes(*s)[i as int],
            i < sdp_attributes(*s).len(),
            j <= n,
            out@ == extmaps_of(attrs.subrange(0, j as int)),
        decreases n - j,
    {
        let a = media_attribute_extmap(s, i, j);
        assert(attrs.subrange(0, j + 1).drop_last() =~= attrs.subrange(0, j as int));
        match a {
            Some(e) => {
                out.push(e);
                assert(out@ =~= extmaps_of(attrs.subrange(0, j + 1)));
            },
            None => {},
        }
        j = j + 1;
    }
    assert(attrs.subrange(0, n as int) =~= attrs);
    out
}

/// Reconciles media section `i` against the publisher extensions `exts`.
fn reconcile_section(s: &mut SdpSession, i: usize, exts: &Vec<RTCRtpHeaderExtensionParameters>)
    requires
        i < sdp_attributes(*old(s)).len(),
    ensures
        sdp_track_ids(*final(s)) == sdp_track_ids(*old(s)),
        sdp_attributes(*final(s)) == sdp_attributes(*old(s)).update(
            i as int,
            sdp_attributes(*old(s))[i as int].filter(|a: Option<SdpAttributeExtmap>| a is None)
                + rewrite_spec(extmaps_of(sdp_attributes(*old(s))[i as int]), exts@).map_values(
                |e: SdpAttributeExtmap| Some(e),
            ),
        ),
        sdp_other_attributes(*final(s)) == sdp_other_attributes(*old(s)),
        sdp_skeleton(*final(s)) == sdp_skeleton(*old(s)),
{
    let ghost before = sdp_attributes(*s);
    let found = collect_extmaps(s, i);
    remove_extmaps(s, i);
    let ghost base = before[i as int].filter(|a: Option<SdpAttributeExtmap>| a is None);
    let mut rewritten = rewrite_extmaps(found, exts);
    let ghost all = rewritten@;
    let ghost mapped = all.map_values(|e: SdpAttributeExtmap| Some(e));
    let ghost mut k: int = 0;
    while rewritten.len() > 0
        invariant
            i < before.len(),
            rewritten@.len() <= all.len(),
            k == all.len() - rewritten@.len(),
            rewritten@ == all.subrange(k, all.len() as int),
            mapped == all.map_values(|e: SdpAttributeExtmap| Some(e)),
            sdp_track_ids(*s) == sdp_track_ids(*old(s)),
            sdp_other_attributes(*s) == sdp_other_attributes(*old(s)),
            sdp_skeleton(*s) == sdp_skeleton(*old(s)),
            sdp_attributes(*s) == before.update(i as int, base + mapped.subrange(0, k)),
        decreases rewritten@.len(),
    {
        let e = rewritten.remove(0);
        assert(e == all[k]);
        add_extmap(s, i, e);
        assert(base + mapped.subrange(0, k + 1) =~= (base + mapped.subrange(0, k)).push(
            Some(e),
        ));
        proof {
            k = k + 1;
        }
        assert(rewritten@ =~= all.subrange(k, all.len() as int));
    }
    assert(mapped.subrange(0, k) =~= mapped);
}

/// Reconciles every media section of a session.
fn reconcile_session(s: &mut SdpSession, m: &PublishersExtmap)
    ensures
        reconciled(*old(s), *final(s), m@),
{
    let ghost start = *s;
    let n = media_count(s);
    let mut i: usize = 0;
    while i < n
        invariant
            n == sdp_attributes(start).len(),
            n == sdp_track_ids(start).len(),
            i <= n,
            sdp_track_ids(*s) == sdp_track_ids(start),
            sdp_other_attributes(*s) == sdp_other_attributes(start),
            sdp_skeleton(*s) == sdp_skeleton(start),
            sdp_attributes(*s).len() == n,
            forall|k: int|
                0 <= k < i ==> #[trigger] sdp_attributes(*s)[k] == section_after(
                    sdp_attributes(start)[k],
                    sdp_track_ids(start)[k],
                    m@,
                ),
            forall|k: int| i <= k < n ==> #[trigger] sdp_attributes(*s)[k] == sdp_attributes(start)[k],
        decreases n - i,
    {
        let track_id = media_track_id(s, i);
        match track_id {
            Some(t) => {
                match lookup_publisher(m, t.as_str()) {
                    Some(p) => {
                        reconcile_section(s, i, &m[p].1);
                    },
                    None => {},
                }
            },
            None => {},
        }
        i = i + 1;
    }
}

/// Rewrites the extmap IDs of a subscriber-side offer to the IDs each
/// publisher used. A media section is matched to its publisher by the track ID
/// in its msid attribute; a section without one, or whose track has no entry,
/// stays as it is. In a matched section each extmap attribute takes the
/// publisher's ID for its URI (the first entry wins), and one whose URI the
/// publisher did not use is dropped.
pub fn adjust_extmap(sdp: &str, publishers_extmap: &PublishersExtmap) -> (r: Result<String, Error>)
    ensures
        match r {
            Ok(out) => sdp_parse(sdp@) is Some && exists|after: SdpSession|
                out@ == sdp_render(after) && reconciled(
                    sdp_parse(sdp@)->Some_0,
                    after,
                    publishers_extmap@,
                ),
            Err(e) => sdp_parse(sdp@) is None && e is SdpError,
        },
{
    match parse_session(sdp) {
        Ok(session) => {
            let mut session = session;
            reconcile_session(&mut session, publishers_extmap);
            let out = render_session(&session);
            Ok(out)
        },
        Err(e) => Err(Error::SdpError(e)),
    }
}

} // verus!
