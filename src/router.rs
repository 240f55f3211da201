use crate::config::{strings_view, MediaConfig};
use crate::extmap::{lookup_extmaps, lookup_from, PublishersExtmap};
use crate::text::str_eq;
use vstd::prelude::*;
use webrtc::rtp_transceiver::rtp_codec::RTCRtpHeaderExtensionParameters;

verus! {

/// One published track: its ID, the header extensions its publisher used,
/// and the publisher handle `P` the transports hand out.
pub struct PublisherEntry<P> {
    pub id: String,
    pub extmap: Vec<RTCRtpHeaderExtensionParameters>,
    pub publisher: P,
}

/// One published data channel: its ID and the handle `D`.
pub struct DataPublisherEntry<D> {
    pub id: String,
    pub data_publisher: D,
}

/// A change to a router's registry, as its event loop receives it.
pub enum RouterEvent<P, D> {
    TrackPublished(PublisherEntry<P>),
    TrackRemoved(String),
    DataPublished(DataPublisherEntry<D>),
    DataRemoved(String),
    Closed,
}

/// The ghost shape of a [`RouterEvent`]: which change, for which ID.
pub enum EventModel {
    TrackPublished(Seq<char>),
    TrackRemoved(Seq<char>),
    DataPublished(Seq<char>),
    DataRemoved(Seq<char>),
    Closed,
}

pub open spec fn event_model<P, D>(e: RouterEvent<P, D>) -> EventModel {
    match e {
        RouterEvent::TrackPublished(p) => EventModel::TrackPublished(p.id@),
        RouterEvent::TrackRemoved(id) => EventModel::TrackRemoved(id@),
        RouterEvent::DataPublished(d) => EventModel::DataPublished(d.id@),
        RouterEvent::DataRemoved(id) => EventModel::DataRemoved(id@),
        RouterEvent::Closed => EventModel::Closed,
    }
}

/// The published track IDs after one event.
pub open spec fn next_track_ids(ids: Set<Seq<char>>, e: EventModel) -> Set<Seq<char>> {
    match e {
        EventModel::TrackPublished(id) => ids.insert(id),
        EventModel::TrackRemoved(id) => ids.remove(id),
        _ => ids,
    }
}

/// The published data channel IDs after one event.
pub open spec fn next_data_ids(ids: Set<Seq<char>>, e: EventModel) -> Set<Seq<char>> {
    match e {
        EventModel::DataPublished(id) => ids.insert(id),
        EventModel::DataRemoved(id) => ids.remove(id),
        _ => ids,
    }
}

/// The published track IDs after a run of events.
pub open spec fn track_ids_after(ids: Set<Seq<char>>, events: Seq<EventModel>) -> Set<Seq<char>>
    decreases events.len(),
{
    if events.len() == 0 {
        ids
    } else {
        next_track_ids(track_ids_after(ids, events.drop_last()), events.last())
    }
}

/// A published track stays listed until it is removed: after a
/// `TrackPublished(id)`, every later state lists `id` until a
/// `TrackRemoved(id)` comes.
pub proof fn lemma_listed_until_removed(
    ids: Set<Seq<char>>,
    events: Seq<EventModel>,
    k: int,
    id: Seq<char>,
)
    requires
        0 <= k < events.len(),
        events[k] == EventModel::TrackPublished(id),
        forall|j: int| k < j < events.len() ==> events[j] != EventModel::TrackRemoved(id),
    ensures
        track_ids_after(ids, events).contains(id),
    decreases events.len(),
{
    let prev = events.drop_last();
    if k == events.len() - 1 {
    } else {
        lemma_listed_until_removed(ids, prev, k, id);
        assert(events.last() != EventModel::TrackRemoved(id));
    }
}

/// `b` holds the same tracks as `a` under every ID but `id`.
pub open spec fn same_tracks_except<P, D>(a: Router<P, D>, b: Router<P, D>, id: Seq<char>) -> bool {
    forall|x: Seq<char>|
        x != id ==> #[trigger] b.publisher_of(x) == a.publisher_of(x) && b.extmap_of(x)
            == a.extmap_of(x)
}

/// `b` holds the same tracks as `a` under every ID.
pub open spec fn same_tracks<P, D>(a: Router<P, D>, b: Router<P, D>) -> bool {
    forall|x: Seq<char>|
        #[trigger] b.publisher_of(x) == a.publisher_of(x) && b.extmap_of(x) == a.extmap_of(x)
}

/// `b` holds the same data channels as `a` under every ID but `id`.
pub open spec fn same_data_except<P, D>(a: Router<P, D>, b: Router<P, D>, id: Seq<char>) -> bool {
    forall|x: Seq<char>| x != id ==> #[trigger] b.data_publisher_of(x) == a.data_publisher_of(x)
}

/// `b` holds the same data channels as `a` under every ID.
pub open spec fn same_data<P, D>(a: Router<P, D>, b: Router<P, D>) -> bool {
    forall|x: Seq<char>| #[trigger] b.data_publisher_of(x) == a.data_publisher_of(x)
}

/// Relies on `uuid::Uuid::new_v4` and its `Display`, which writes the
/// hyphenated form: 36 characters. The value itself is random.
#[verifier::external_body]
pub(crate) fn fresh_id() -> (r: String)
    ensures
        r@.len() == 36,
{
    uuid::Uuid::new_v4().to_string()
}

/// The registry of one room: the published tracks and data channels, each
/// ID at most once, in the order they were first published.
pub struct Router<P, D> {
    id: String,
    publishers: Vec<PublisherEntry<P>>,
    data_publishers: Vec<DataPublisherEntry<D>>,
    media_config: MediaConfig,
}

pub open spec fn keys_unique(keys: Seq<Seq<char>>) -> bool {
    forall|i: int, j: int| 0 <= i < j < keys.len() ==> keys[i] != keys[j]
}

/// The publisher of the first entry from position `i` on with track ID `id`.
pub open spec fn publisher_from<P>(entries: Seq<PublisherEntry<P>>, id: Seq<char>, i: int) -> Option<P>
    decreases entries.len() - i,
{
    if i < 0 || i >= entries.len() {
        None
    } else if entries[i].id@ == id {
        Some(entries[i].publisher)
    } else {
        publisher_from(entries, id, i + 1)
    }
}

/// The handle of the first entry from position `i` on with ID `id`.
pub open spec fn data_publisher_from<D>(entries: Seq<DataPublisherEntry<D>>, id: Seq<char>, i: int) -> Option<D>
    decreases entries.len() - i,
{
    if i < 0 || i >= entries.len() {
        None
    } else if entries[i].id@ == id {
        Some(entries[i].data_publisher)
    } else {
        data_publisher_from(entries, id, i + 1)
    }
}

proof fn lemma_publisher_from<P>(entries: Seq<PublisherEntry<P>>, id: Seq<char>, i: int, k: int)
    requires
        0 <= i <= k < entries.len(),
        entries[k].id@ == id,
        forall|j: int| i <= j < k ==> entries[j].id@ != id,
    ensures
        publisher_from(entries, id, i) == Some(entries[k].publisher),
    decreases k - i,
{
    if i < k {
        lemma_publisher_from(entries, id, i + 1, k);
    }
}

proof fn lemma_data_publisher_from<D>(entries: Seq<DataPublisherEntry<D>>, id: Seq<char>, i: int, k: int)
    requires
        0 <= i <= k < entries.len(),
        entries[k].id@ == id,
        forall|j: int| i <= j < k ==> entries[j].id@ != id,
    ensures
        data_publisher_from(entries, id, i) == Some(entries[k].data_publisher),
    decreases k - i,
{
    if i < k {
        lemma_data_publisher_from(entries, id, i + 1, k);
    }
}

proof fn lemma_publisher_absent<P>(entries: Seq<PublisherEntry<P>>, id: Seq<char>, i: int)
    requires
        0 <= i <= entries.len(),
        forall|j: int| i <= j < entries.len() ==> entries[j].id@ != id,
    ensures
        publisher_from(entries, id, i) is None,
    decreases entries.len() - i,
{
    if i < entries.len() {
        lemma_publisher_absent(entries, id, i + 1);
    }
}

proof fn lemma_data_publisher_absent<D>(entries: Seq<DataPublisherEntry<D>>, id: Seq<char>, i: int)
    requires
        0 <= i <= entries.len(),
        forall|j: int| i <= j < entries.len() ==> entries[j].id@ != id,
    ensures
        data_publisher_from(entries, id, i) is None,
    decreases entries.len() - i,
{
    if i < entries.len() {
        lemma_data_publisher_absent(entries, id, i + 1);
    }
}

/// The extensions of the first entry from position `i` on with track ID `id`.
pub open spec fn extmap_from<P>(entries: Seq<PublisherEntry<P>>, id: Seq<char>, i: int) -> Option<
    Seq<RTCRtpHeaderExtensionParameters>,
>
    decreases entries.len() - i,
{
    if i < 0 || i >= entries.len() {
        None
    } else if entries[i].id@ == id {
        Some(entries[i].extmap@)
    } else {
        extmap_from(entries, id, i + 1)
    }
}

proof fn lemma_extmap_from<P>(entries: Seq<PublisherEntry<P>>, id: Seq<char>, i: int, k: int)
    requires
        0 <= i <= k < entries.len(),
        entries[k].id@ == id,
        forall|j: int| i <= j < k ==> entries[j].id@ != id,
    ensures
        extmap_from(entries, id, i) == Some(entries[k].extmap@),
    decreases k - i,
{
    if i < k {
        lemma_extmap_from(entries, id, i + 1, k);
    }
}

proof fn lemma_extmap_copy<P>(
    entries: Seq<PublisherEntry<P>>,
    copy: Seq<(String, Vec<RTCRtpHeaderExtensionParameters>)>,
    id: Seq<char>,
    i: int,
)
    requires
        0 <= i <= entries.len(),
        copy.len() == entries.len(),
        forall|j: int|
            0 <= j < entries.len() ==> #[trigger] copy[j].0@ == entries[j].id@ && copy[j].1@
                == entries[j].extmap@,
    ensures
        lookup_from(copy, id, i) == extmap_from(entries, id, i),
    decreases entries.len() - i,
{
    if i < entries.len() {
        lemma_extmap_copy(entries, copy, id, i + 1);
    }
}

/// A copy of a list of header extensions.
fn copy_extensions(exts: &Vec<RTCRtpHeaderExtensionParameters>) -> (r: Vec<
    RTCRtpHeaderExtensionParameters,
>)
    ensures
        r@ == exts@,
{
    let mut out: Vec<RTCRtpHeaderExtensionParameters> = Vec::new();
    let mut i: usize = 0;
    while i < exts.len()
        invariant
            i <= exts@.len(),
            out@ == exts@.subrange(0, i as int),
        decreases exts.len() - i,
    {
        let e = RTCRtpHeaderExtensionParameters { uri: exts[i].uri.clone(), id: exts[i].id };
        out.push(e);
        assert(out@ =~= exts@.subrange(0, i + 1));
        i = i + 1;
    }
    assert(exts@.subrange(0, i as int) =~= exts@);
    out
}

pub open spec fn entry_keys<P>(e: Seq<PublisherEntry<P>>) -> Seq<Seq<char>> {
    e.map_values(|x: PublisherEntry<P>| x.id@)
}

pub open spec fn data_entry_keys<D>(e: Seq<DataPublisherEntry<D>>) -> Seq<Seq<char>> {
    e.map_values(|x: DataPublisherEntry<D>| x.id@)
}

proof fn lemma_extmap_absent<P>(entries: Seq<PublisherEntry<P>>, id: Seq<char>, i: int)
    requires
        0 <= i <= entries.len(),
        forall|j: int| i <= j < entries.len() ==> entries[j].id@ != id,
    ensures
        extmap_from(entries, id, i) is None,
    decreases entries.len() - i,
{
    if i < entries.len() {
        lemma_extmap_absent(entries, id, i + 1);
    }
}

/// With unique IDs, a lookup finds the one entry with that ID.
proof fn lemma_entries_lookup<P>(e: Seq<PublisherEntry<P>>, x: Seq<char>)
    requires
        keys_unique(entry_keys(e)),
    ensures
        forall|k: int|
            0 <= k < e.len() && #[trigger] e[k].id@ == x ==> publisher_from(e, x, 0) == Some(
                e[k].publisher,
            ) && extmap_from(e, x, 0) == Some(e[k].extmap@),
        (forall|k: int| 0 <= k < e.len() ==> #[trigger] e[k].id@ != x) ==> publisher_from(e, x, 0)
            is None && extmap_from(e, x, 0) is None,
{
    assert forall|k: int| 0 <= k < e.len() && #[trigger] e[k].id@ == x implies publisher_from(
        e,
        x,
        0,
    ) == Some(e[k].publisher) && extmap_from(e, x, 0) == Some(e[k].extmap@) by {
        assert forall|j: int| 0 <= j < k implies e[j].id@ != x by {
            assert(entry_keys(e)[j] != entry_keys(e)[k]);
        }
        lemma_publisher_from(e, x, 0, k);
        lemma_extmap_from(e, x, 0, k);
    }
    if forall|k: int| 0 <= k < e.len() ==> #[trigger] e[k].id@ != x {
        lemma_publisher_absent(e, x, 0);
        lemma_extmap_absent(e, x, 0);
    }
}

/// Removing one entry leaves the lookups of every other ID as they were.
proof fn lemma_entries_remove<P>(e: Seq<PublisherEntry<P>>, i: int, x: Seq<char>)
    requires
        keys_unique(entry_keys(e)),
        0 <= i < e.len(),
        x != e[i].id@,
    ensures
        publisher_from(e.remove(i), x, 0) == publisher_from(e, x, 0),
        extmap_from(e.remove(i), x, 0) == extmap_from(e, x, 0),
{
    let r = e.remove(i);
    lemma_remove_key(entry_keys(e), i);
    assert(entry_keys(r) =~= entry_keys(e).remove(i));
    lemma_entries_lookup(e, x);
    lemma_entries_lookup(r, x);
    if exists|k: int| 0 <= k < e.len() && #[trigger] e[k].id@ == x {
        let k = choose|k: int| 0 <= k < e.len() && #[trigger] e[k].id@ == x;
        let k2 = if k < i { k } else { k - 1 };
        assert(r[k2] == e[k]);
    } else {
        assert forall|k: int| 0 <= k < r.len() implies #[trigger] r[k].id@ != x by {
            if k < i {
                assert(r[k] == e[k]);
            } else {
                assert(r[k] == e[k + 1]);
            }
        }
    }
}

/// Appending an entry leaves the lookups of every other ID as they were.
proof fn lemma_entries_push<P>(e: Seq<PublisherEntry<P>>, n: PublisherEntry<P>, x: Seq<char>)
    requires
        keys_unique(entry_keys(e.push(n))),
        x != n.id@,
    ensures
        publisher_from(e.push(n), x, 0) == publisher_from(e, x, 0),
        extmap_from(e.push(n), x, 0) == extmap_from(e, x, 0),
{
    let p = e.push(n);
    assert forall|a: int, b: int| 0 <= a < b < entry_keys(e).len() implies entry_keys(e)[a]
        != entry_keys(e)[b] by {
        assert(entry_keys(p)[a] != entry_keys(p)[b]);
    }
    lemma_entries_lookup(e, x);
    lemma_entries_lookup(p, x);
    if exists|k: int| 0 <= k < e.len() && #[trigger] e[k].id@ == x {
        let k = choose|k: int| 0 <= k < e.len() && #[trigger] e[k].id@ == x;
        assert(p[k] == e[k]);
    } else {
        assert forall|k: int| 0 <= k < p.len() implies #[trigger] p[k].id@ != x by {
            if k < e.len() {
                assert(p[k] == e[k]);
            }
        }
    }
}

/// With unique IDs, a lookup finds the one data entry with that ID.
proof fn lemma_data_entries_lookup<D>(e: Seq<DataPublisherEntry<D>>, x: Seq<char>)
    requires
        keys_unique(data_entry_keys(e)),
    ensures
        forall|k: int|
            0 <= k < e.len() && #[trigger] e[k].id@ == x ==> data_publisher_from(e, x, 0) == Some(
                e[k].data_publisher,
            ),
        (forall|k: int| 0 <= k < e.len() ==> #[trigger] e[k].id@ != x) ==> data_publisher_from(
            e,
            x,
            0,
        ) is None,
{
    assert forall|k: int| 0 <= k < e.len() && #[trigger] e[k].id@ == x implies data_publisher_from(
        e,
        x,
        0,
    ) == Some(e[k].data_publisher) by {
        assert forall|j: int| 0 <= j < k implies e[j].id@ != x by {
            assert(data_entry_keys(e)[j] != data_entry_keys(e)[k]);
        }
        lemma_data_publisher_from(e, x, 0, k);
    }
    if forall|k: int| 0 <= k < e.len() ==> #[trigger] e[k].id@ != x {
        lemma_data_publisher_absent(e, x, 0);
    }
}

/// Removing one data entry leaves the lookups of every other ID as they were.
proof fn lemma_data_entries_remove<D>(e: Seq<DataPublisherEntry<D>>, i: int, x: Seq<char>)
    requires
        keys_unique(data_entry_keys(e)),
        0 <= i < e.len(),
        x != e[i].id@,
    ensures
        data_publisher_from(e.remove(i), x, 0) == data_publisher_from(e, x, 0),
{
    let r = e.remove(i);
    lemma_remove_key(data_entry_keys(e), i);
    assert(data_entry_keys(r) =~= data_entry_keys(e).remove(i));
    lemma_data_entries_lookup(e, x);
    lemma_data_entries_lookup(r, x);
    if exists|k: int| 0 <= k < e.len() && #[trigger] e[k].id@ == x {
        let k = choose|k: int| 0 <= k < e.len() && #[trigger] e[k].id@ == x;
        let k2 = if k < i { k } else { k - 1 };
        assert(r[k2] == e[k]);
    } else {
        assert forall|k: int| 0 <= k < r.len() implies #[trigger] r[k].id@ != x by {
            if k < i {
                assert(r[k] == e[k]);
            } else {
                assert(r[k] == e[k + 1]);
            }
        }
    }
}

/// Appending a data entry leaves the lookups of every other ID as they were.
proof fn lemma_data_entries_push<D>(e: Seq<DataPublisherEntry<D>>, n: DataPublisherEntry<D>, x: Seq<char>)
    requires
        keys_unique(data_entry_keys(e.push(n))),
        x != n.id@,
    ensures
        data_publisher_from(e.push(n), x, 0) == data_publisher_from(e, x, 0),
{
    let p = e.push(n);
    assert forall|a: int, b: int| 0 <= a < b < data_entry_keys(e).len() implies data_entry_keys(e)[a]
        != data_entry_keys(e)[b] by {
        assert(data_entry_keys(p)[a] != data_entry_keys(p)[b]);
    }
    lemma_data_entries_lookup(e, x);
    lemma_data_entries_lookup(p, x);
    if exists|k: int| 0 <= k < e.len() && #[trigger] e[k].id@ == x {
        let k = choose|k: int| 0 <= k < e.len() && #[trigger] e[k].id@ == x;
        assert(p[k] == e[k]);
    } else {
        assert forall|k: int| 0 <= k < p.len() implies #[trigger] p[k].id@ != x by {
            if k < e.len() {
                assert(p[k] == e[k]);
            }
        }
    }
}

proof fn lemma_strings_view_push(s: Seq<String>, x: String)
    ensures
        strings_view(s.push(x)) == strings_view(s).push(x@),
{
    assert(strings_view(s.push(x)) =~= strings_view(s).push(x@));
}

proof fn lemma_remove_key(keys: Seq<Seq<char>>, i: int)
    requires
        keys_unique(keys),
        0 <= i < keys.len(),
    ensures
        keys_unique(keys.remove(i)),
        keys.remove(i).to_set() == keys.to_set().remove(keys[i]),
{
    let r = keys.remove(i);
    assert forall|a: int, b: int| 0 <= a < b < r.len() implies r[a] != r[b] by {
        let a2 = if a < i { a } else { a + 1 };
        let b2 = if b < i { b } else { b + 1 };
        assert(r[a] == keys[a2]);
        assert(r[b] == keys[b2]);
    }
    assert forall|x: Seq<char>| r.to_set().contains(x) <==> keys.to_set().remove(keys[i]).contains(
        x,
    ) by {
        if r.contains(x) {
            let k = choose|k: int| 0 <= k < r.len() && r[k] == x;
            let k2 = if k < i { k } else { k + 1 };
            assert(keys[k2] == x);
            assert(keys.contains(x));
        }
        if keys.contains(x) && x != keys[i] {
            let k = choose|k: int| 0 <= k < keys.len() && keys[k] == x;
            if k < i {
                assert(r[k] == x);
            } else {
                assert(r[k - 1] == x);
            }
            assert(r.contains(x));
        }
    }
    assert(r.to_set() =~= keys.to_set().remove(keys[i]));
}

proof fn lemma_push_key(keys: Seq<Seq<char>>, x: Seq<char>)
    requires
        keys_unique(keys),
        !keys.contains(x),
    ensures
        keys_unique(keys.push(x)),
        keys.push(x).to_set() == keys.to_set().insert(x),
{
    let p = keys.push(x);
    assert forall|a: int, b: int| 0 <= a < b < p.len() implies p[a] != p[b] by {
        if b == keys.len() {
            assert(p[a] == keys[a]);
            assert(keys.contains(keys[a]));
        }
    }
    keys.lemma_push_to_set_commute(x);
}

impl<P, D> Router<P, D> {
    pub closed spec fn id_view(&self) -> Seq<char> {
        self.id@
    }

    /// The media configuration the router was made with.
    pub closed spec fn config(&self) -> MediaConfig {
        self.media_config
    }

    pub closed spec fn track_keys(&self) -> Seq<Seq<char>> {
        entry_keys(self.publishers@)
    }

    pub closed spec fn data_keys(&self) -> Seq<Seq<char>> {
        data_entry_keys(self.data_publishers@)
    }

    /// The published track IDs.
    pub open spec fn track_ids(&self) -> Set<Seq<char>> {
        self.track_keys().to_set()
    }

    /// The published data channel IDs.
    pub open spec fn data_ids(&self) -> Set<Seq<char>> {
        self.data_keys().to_set()
    }

    /// The publisher registered under a track ID.
    pub closed spec fn publisher_of(&self, id: Seq<char>) -> Option<P> {
        publisher_from(self.publishers@, id, 0)
    }

    /// The data publisher registered under an ID.
    pub closed spec fn data_publisher_of(&self, id: Seq<char>) -> Option<D> {
        data_publisher_from(self.data_publishers@, id, 0)
    }

    /// The header extensions the publisher of a track used.
    pub closed spec fn extmap_of(&self, id: Seq<char>) -> Option<Seq<RTCRtpHeaderExtensionParameters>> {
        extmap_from(self.publishers@, id, 0)
    }

    pub closed spec fn wf(&self) -> bool {
        keys_unique(self.track_keys()) && keys_unique(self.data_keys())
    }

    /// An empty registry under a fresh random ID.
    pub fn new(media_config: MediaConfig) -> (r: Router<P, D>)
        ensures
            r.wf(),
            r.id_view().len() == 36,
            r.config() == media_config,
            r.track_ids() == Set::<Seq<char>>::empty(),
            r.data_ids() == Set::<Seq<char>>::empty(),
    {
        let id = fresh_id();
        let r = Router { id, publishers: Vec::new(), data_publishers: Vec::new(), media_config };
        assert(r.track_keys() =~= seq![]);
        assert(r.data_keys() =~= seq![]);
        assert(r.track_keys().to_set() =~= Set::empty());
        assert(r.data_keys().to_set() =~= Set::empty());
        r
    }


    /// The router's ID.
    pub fn id(&self) -> (r: &String)
        ensures
            r@ == self.id_view(),
    {
        &self.id
    }

    /// The media configuration transports of this router are built with.
    pub fn media_config(&self) -> (r: &MediaConfig)
        ensures
            *r == self.config(),
    {
        &self.media_config
    }

    /// The IDs of the published tracks, each once.
    pub fn publisher_ids(&self) -> (r: Vec<String>)
        requires
            self.wf(),
        ensures
            strings_view(r@).to_set() == self.track_ids(),
            r@.len() == self.track_ids().len(),
            keys_unique(strings_view(r@)),
    {
        let mut out: Vec<String> = Vec::new();
        let mut i: usize = 0;
        while i < self.publishers.len()
            invariant
                i <= self.publishers@.len(),
                strings_view(out@) == self.track_keys().subrange(0, i as int),
            decreases self.publishers.len() - i,
        {
            let id = self.publishers[i].id.clone();
            assert(self.track_keys()[i as int] == id@);
            let ghost prev = out@;
            out.push(id);
            proof {
                lemma_strings_view_push(prev, id);
            }
            assert(self.track_keys().subrange(0, i + 1) =~= self.track_keys().subrange(0, i as int).push(
                self.track_keys()[i as int],
            ));
            i = i + 1;
        }
        assert(self.track_keys().subrange(0, i as int) =~= self.track_keys());
        proof {
            self.track_keys().unique_seq_to_set();
        }
        out
    }

    /// The IDs of the published data channels, each once.
    pub fn data_publisher_ids(&self) -> (r: Vec<String>)
        requires
            self.wf(),
        ensures
            strings_view(r@).to_set() == self.data_ids(),
            r@.len() == self.data_ids().len(),
            keys_unique(strings_view(r@)),
    {
        let mut out: Vec<String> = Vec::new();
        let mut i: usize = 0;
        while i < self.data_publishers.len()
            invariant
                i <= self.data_publishers@.len(),
                strings_view(out@) == self.data_keys().subrange(0, i as int),
            decreases self.data_publishers.len() - i,
        {
            let id = self.data_publishers[i].id.clone();
            assert(self.data_keys()[i as int] == id@);
            let ghost prev = out@;
            out.push(id);
            proof {
                lemma_strings_view_push(prev, id);
            }
            assert(self.data_keys().subrange(0, i + 1) =~= self.data_keys().subrange(0, i as int).push(
                self.data_keys()[i as int],
            ));
            i = i + 1;
        }
        assert(self.data_keys().subrange(0, i as int) =~= self.data_keys());
        proof {
            self.data_keys().unique_seq_to_set();
        }
        out
    }

    proof fn lemma_publisher_at(&self, k: int)
        requires
            self.wf(),
            0 <= k < self.publishers@.len(),
        ensures
            self.publisher_of(self.publishers@[k].id@) == Some(self.publishers@[k].publisher),
            self.extmap_of(self.publishers@[k].id@) == Some(self.publishers@[k].extmap@),
    {
        let id = self.publishers@[k].id@;
        assert forall|j: int| 0 <= j < k implies self.publishers@[j].id@ != id by {
            assert(self.track_keys()[j] != self.track_keys()[k]);
        }
        lemma_publisher_from(self.publishers@, id, 0, k);
        lemma_extmap_from(self.publishers@, id, 0, k);
    }

    proof fn lemma_data_publisher_at(&self, k: int)
        requires
            self.wf(),
            0 <= k < self.data_publishers@.len(),
        ensures
            self.data_publisher_of(self.data_publishers@[k].id@) == Some(
                self.data_publishers@[k].data_publisher,
            ),
    {
        let id = self.data_publishers@[k].id@;
        assert forall|j: int| 0 <= j < k implies self.data_publishers@[j].id@ != id by {
            assert(self.data_keys()[j] != self.data_keys()[k]);
        }
        lemma_data_publisher_from(self.data_publishers@, id, 0, k);
    }

    /// The publisher of a track, if the track is published.
    pub fn get_publisher(&self, id: &str) -> (r: Option<&P>)
        requires
            self.wf(),
        ensures
            match r {
                Some(p) => self.publisher_of(id@) == Some(*p),
                None => self.publisher_of(id@) is None,
            },
            r is Some <==> self.track_ids().contains(id@),
    {
        match self.find_publisher(id) {
            Some(i) => {
                proof {
                    self.lemma_publisher_at(i as int);
                    assert(self.track_keys()[i as int] == id@);
                }
                Some(&self.publishers[i].publisher)
            },
            None => {
                proof {
                    lemma_publisher_absent(self.publishers@, id@, 0);
                }
                assert(!self.track_keys().contains(id@));
                None
            },
        }
    }

    /// The data publisher registered under an ID, if any.
    pub fn get_data_publisher(&self, id: &str) -> (r: Option<&D>)
        requires
            self.wf(),
        ensures
            match r {
                Some(d) => self.data_publisher_of(id@) == Some(*d),
                None => self.data_publisher_of(id@) is None,
            },
            r is Some <==> self.data_ids().contains(id@),
    {
        match self.find_data_publisher(id) {
            Some(i) => {
                proof {
                    self.lemma_data_publisher_at(i as int);
                    assert(self.data_keys()[i as int] == id@);
                }
                Some(&self.data_publishers[i].data_publisher)
            },
            None => {
                proof {
                    lemma_data_publisher_absent(self.data_publishers@, id@, 0);
                }
                assert(!self.data_keys().contains(id@));
                None
            },
        }
    }

    /// The header extensions each published track's publisher used, by track
    /// ID: what offers to subscribers are reconciled against.
    pub fn publishers_extmap(&self) -> (r: PublishersExtmap)
        ensures
            forall|id: Seq<char>| #[trigger] lookup_extmaps(r@, id) == self.extmap_of(id),
            strings_view(r@.map_values(|p: (String, Vec<RTCRtpHeaderExtensionParameters>)| p.0))
                == self.track_keys(),
    {
        let mut out: PublishersExtmap = Vec::new();
        let mut i: usize = 0;
        while i < self.publishers.len()
            invariant
                i <= self.publishers@.len(),
                out@.len() == i,
                forall|j: int|
                    0 <= j < i ==> #[trigger] out@[j].0@ == self.publishers@[j].id@ && out@[j].1@
                        == self.publishers@[j].extmap@,
            decreases self.publishers.len() - i,
        {
            let id = self.publishers[i].id.clone();
            let exts = copy_extensions(&self.publishers[i].extmap);
            out.push((id, exts));
            i = i + 1;
        }
        assert forall|id: Seq<char>| #[trigger] lookup_extmaps(out@, id) == self.extmap_of(id) by {
            lemma_extmap_copy(self.publishers@, out@, id, 0);
        }
        assert(strings_view(out@.map_values(|p: (String, Vec<RTCRtpHeaderExtensionParameters>)| p.0))
            =~= self.track_keys());
        out
    }

    fn insert_publisher(&mut self, entry: PublisherEntry<P>)
        requires
            old(self).wf(),
        ensures
            final(self).wf(),
            final(self).track_ids() == old(self).track_ids().insert(entry.id@),
            final(self).data_ids() == old(self).data_ids(),
            final(self).publisher_of(entry.id@) == Some(entry.publisher),
            final(self).extmap_of(entry.id@) == Some(entry.extmap@),
            final(self).id_view() == old(self).id_view(),
            same_tracks_except(*old(self), *final(self), entry.id@),
            same_data(*old(self), *final(self)),
    {
        let ghost id = entry.id@;
        let ghost before = self.publishers@;
        match self.find_publisher(entry.id.as_str()) {
            Some(i) => {
                let ghost keys = self.track_keys();
                proof {
                    assert(keys[i as int] == id);
                    lemma_remove_key(keys, i as int);
                }
                self.publishers.remove(i);
                assert(self.track_keys() =~= keys.remove(i as int));
                assert(keys.to_set().remove(id).insert(id) =~= keys.to_set().insert(id));
                proof {
                    assert forall|x: Seq<char>| x != id implies publisher_from(
                        self.publishers@,
                        x,
                        0,
                    ) == publisher_from(before, x, 0) && extmap_from(self.publishers@, x, 0)
                        == extmap_from(before, x, 0) by {
                        lemma_entries_remove(before, i as int, x);
                    }
                }
            },
            None => {},
        }
        let ghost keys = self.track_keys();
        let ghost mid = self.publishers@;
        proof {
            assert(!keys.contains(id));
            lemma_push_key(keys, id);
        }
        self.publishers.push(entry);
        assert(self.track_keys() =~= keys.push(id));
        proof {
            self.lemma_publisher_at(self.publishers@.len() - 1);
            assert forall|x: Seq<char>| x != id implies #[trigger] self.publisher_of(x) == old(
                self,
            ).publisher_of(x) && self.extmap_of(x) == old(self).extmap_of(x) by {
                lemma_entries_push(mid, entry, x);
            }
        }
    }

    fn remove_publisher(&mut self, id: &str)
        requires
            old(self).wf(),
        ensures
            final(self).wf(),
            final(self).track_ids() == old(self).track_ids().remove(id@),
            final(self).data_ids() == old(self).data_ids(),
            final(self).id_view() == old(self).id_view(),
            final(self).publisher_of(id@) is None,
            final(self).extmap_of(id@) is None,
            same_tracks_except(*old(self), *final(self), id@),
            same_data(*old(self), *final(self)),
    {
        let ghost before = self.publishers@;
        match self.find_publisher(id) {
            Some(i) => {
                let ghost keys = self.track_keys();
                proof {
                    assert(keys[i as int] == id@);
                    lemma_remove_key(keys, i as int);
                }
                self.publishers.remove(i);
                assert(self.track_keys() =~= keys.remove(i as int));
                proof {
                    assert forall|x: Seq<char>| x != id@ implies #[trigger] self.publisher_of(x)
                        == old(self).publisher_of(x) && self.extmap_of(x) == old(self).extmap_of(
                        x,
                    ) by {
                        lemma_entries_remove(before, i as int, x);
                    }
                    assert forall|k: int|
                        0 <= k < self.publishers@.len() implies #[trigger] self.publishers@[k].id@
                        != id@ by {
                        assert(self.track_keys()[k] == self.publishers@[k].id@);
                        assert(!keys.remove(i as int).contains(id@));
                    }
                    lemma_entries_lookup(self.publishers@, id@);
                }
            },
            None => {
                assert(!self.track_keys().contains(id@));
                assert(self.track_ids() =~= self.track_ids().remove(id@));
                proof {
                    lemma_entries_lookup(self.publishers@, id@);
                }
            },
        }
    }

    fn insert_data_publisher(&mut self, entry: DataPublisherEntry<D>)
        requires
            old(self).wf(),
        ensures
            final(self).wf(),
            final(self).data_ids() == old(self).data_ids().insert(entry.id@),
            final(self).track_ids() == old(self).track_ids(),
            final(self).data_publisher_of(entry.id@) == Some(entry.data_publisher),
            final(self).id_view() == old(self).id_view(),
            same_data_except(*old(self), *final(self), entry.id@),
            same_tracks(*old(self), *final(self)),
    {
        let ghost id = entry.id@;
        let ghost before = self.data_publishers@;
        match self.find_data_publisher(entry.id.as_str()) {
            Some(i) => {
                let ghost keys = self.data_keys();
                proof {
                    assert(keys[i as int] == id);
                    lemma_remove_key(keys, i as int);
                }
                self.data_publishers.remove(i);
                assert(self.data_keys() =~= keys.remove(i as int));
                assert(keys.to_set().remove(id).insert(id) =~= keys.to_set().insert(id));
                proof {
                    assert forall|x: Seq<char>| x != id implies data_publisher_from(
                        self.data_publishers@,
                        x,
                        0,
                    ) == data_publisher_from(before, x, 0) by {
                        lemma_data_entries_remove(before, i as int, x);
                    }
                }
            },
            None => {},
        }
        let ghost keys = self.data_keys();
        let ghost mid = self.data_publishers@;
        proof {
            assert(!keys.contains(id));
            lemma_push_key(keys, id);
        }
        self.data_publishers.push(entry);
        assert(self.data_keys() =~= keys.push(id));
        proof {
            self.lemma_data_publisher_at(self.data_publishers@.len() - 1);
            assert forall|x: Seq<char>| x != id implies #[trigger] self.data_publisher_of(x) == old(
                self,
            ).data_publisher_of(x) by {
                lemma_data_entries_push(mid, entry, x);
            }
        }
    }

    fn remove_data_publisher(&mut self, id: &str)
        requires
            old(self).wf(),
        ensures
            final(self).wf(),
            final(self).data_ids() == old(self).data_ids().remove(id@),
            final(self).track_ids() == old(self).track_ids(),
            final(self).id_view() == old(self).id_view(),
            final(self).data_publisher_of(id@) is None,
            same_data_except(*old(self), *final(self), id@),
            same_tracks(*old(self), *final(self)),
    {
        let ghost before = self.data_publishers@;
        match self.find_data_publisher(id) {
            Some(i) => {
                let ghost keys = self.data_keys();
                proof {
                    assert(keys[i as int] == id@);
                    lemma_remove_key(keys, i as int);
                }
                self.data_publishers.remove(i);
                assert(self.data_keys() =~= keys.remove(i as int));
                proof {
                    assert forall|x: Seq<char>| x != id@ implies #[trigger] self.data_publisher_of(
                        x,
                    ) == old(self).data_publisher_of(x) by {
                        lemma_data_entries_remove(before, i as int, x);
                    }
                    assert forall|k: int|
                        0 <= k < self.data_publishers@.len() implies #[trigger] self.data_publishers@[k].id@
                        != id@ by {
                        assert(self.data_keys()[k] == self.data_publishers@[k].id@);
                        assert(!keys.remove(i as int).contains(id@));
                    }
                    lemma_data_entries_lookup(self.data_publishers@, id@);
                }
            },
            None => {
                assert(!self.data_keys().contains(id@));
                assert(self.data_ids() =~= self.data_ids().remove(id@));
                proof {
                    lemma_data_entries_lookup(self.data_publishers@, id@);
                }
            },
        }
    }

    /// Applies one event of the router's event loop. Returns whether the loop
    /// goes on: it stops at `Closed`.
    pub fn apply(&mut self, event: RouterEvent<P, D>) -> (r: bool)
        requires
            old(self).wf(),
        ensures
            final(self).wf(),
            final(self).id_view() == old(self).id_view(),
            final(self).track_ids() == next_track_ids(old(self).track_ids(), event_model(event)),
            final(self).data_ids() == next_data_ids(old(self).data_ids(), event_model(event)),
            r == !(event is Closed),
            match event {
                RouterEvent::TrackPublished(e) => {
                    &&& final(self).publisher_of(e.id@) == Some(e.publisher)
                    &&& final(self).extmap_of(e.id@) == Some(e.extmap@)
                    &&& same_tracks_except(*old(self), *final(self), e.id@)
                    &&& same_data(*old(self), *final(self))
                },
                RouterEvent::TrackRemoved(id) => {
                    &&& final(self).publisher_of(id@) is None
                    &&& final(self).extmap_of(id@) is None
                    &&& same_tracks_except(*old(self), *final(self), id@)
                    &&& same_data(*old(self), *final(self))
                },
                RouterEvent::DataPublished(e) => {
                    &&& final(self).data_publisher_of(e.id@) == Some(e.data_publisher)
                    &&& same_data_except(*old(self), *final(self), e.id@)
                    &&& same_tracks(*old(self), *final(self))
                },
                RouterEvent::DataRemoved(id) => {
                    &&& final(self).data_publisher_of(id@) is None
                    &&& same_data_except(*old(self), *final(self), id@)
                    &&& same_tracks(*old(self), *final(self))
                },
                RouterEvent::Closed => same_tracks(*old(self), *final(self)) && same_data(
                    *old(self),
                    *final(self),
                ),
            },
    {
        match event {
            RouterEvent::TrackPublished(entry) => {
                self.insert_publisher(entry);
                true
            },
            RouterEvent::TrackRemoved(id) => {
                self.remove_publisher(id.as_str());
                true
            },
            RouterEvent::DataPublished(entry) => {
                self.insert_data_publisher(entry);
                true
            },
            RouterEvent::DataRemoved(id) => {
                self.remove_data_publisher(id.as_str());
                true
            },
            RouterEvent::Closed => false,
        }
    }

    fn find_publisher(&self, id: &str) -> (r: Option<usize>)
        ensures
            match r {
                Some(i) => i < self.publishers@.len() && self.publishers@[i as int].id@ == id@,
                None => forall|i: int|
                    0 <= i < self.publishers@.len() ==> self.publishers@[i].id@ != id@,
            },
    {
        let mut i: usize = 0;
        while i < self.publishers.len()
            invariant
                i <= self.publishers@.len(),
                forall|k: int| 0 <= k < i ==> self.publishers@[k].id@ != id@,
            decreases self.publishers.len() - i,
        {
            if str_eq(self.publishers[i].id.as_str(), id) {
                return Some(i);
            }
            i = i + 1;
        }
        None
    }

    fn find_data_publisher(&self, id: &str) -> (r: Option<usize>)
        ensures
            match r {
                Some(i) => i < self.data_publishers@.len() && self.data_publishers@[i as int].id@
                    == id@,
                None => forall|i: int|
                    0 <= i < self.data_publishers@.len() ==> self.data_publishers@[i].id@ != id@,
            },
    {
        let mut i: usize = 0;
        while i < self.data_publishers.len()
            invariant
                i <= self.data_publishers@.len(),
                forall|k: int| 0 <= k < i ==> self.data_publishers@[k].id@ != id@,
            decreases self.data_publishers.len() - i,
        {
            if str_eq(self.data_publishers[i].id.as_str(), id) {
                return Some(i);
            }
            i = i + 1;
        }
        None
    }
}

} // verus!
