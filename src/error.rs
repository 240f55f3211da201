use vstd::prelude::*;
use vstd::string::*;

verus! {

/// webrtc_sdp's parse error, carried in [`Error::SdpError`].
#[verifier::external_type_specification]
#[verifier::external_body]
pub struct ExSdpParserError(webrtc_sdp::error::SdpParserError);

/// What went wrong in a transport.
#[derive(Clone, Copy, Debug, PartialEq, Eq, Structural)]
pub enum TransportErrorKind {
    PeerConnectionError,
    LocalDescriptionError,
    ICECandidateError,
}

/// What went wrong while subscribing.
#[derive(Clone, Copy, Debug, PartialEq, Eq, Structural)]
pub enum SubscriberErrorKind {
    TrackNotFoundError,
    DataChannelNotFoundError,
}

/// What went wrong while publishing.
#[derive(Clone, Copy, Debug, PartialEq, Eq, Structural)]
pub enum PublisherErrorKind {
    TrackNotPublishedError,
    DataChannelNotPublishedError,
}

pub open spec fn transport_kind_text(kind: TransportErrorKind) -> Seq<char> {
    match kind {
        TransportErrorKind::PeerConnectionError => "peer connection error"@,
        TransportErrorKind::LocalDescriptionError => "local description error"@,
        TransportErrorKind::ICECandidateError => "ice candidate error"@,
    }
}

pub open spec fn subscriber_kind_text(kind: SubscriberErrorKind) -> Seq<char> {
    match kind {
        SubscriberErrorKind::TrackNotFoundError => "track not found error"@,
        SubscriberErrorKind::DataChannelNotFoundError => "data channel not found error"@,
    }
}

pub open spec fn publisher_kind_text(kind: PublisherErrorKind) -> Seq<char> {
    match kind {
        PublisherErrorKind::TrackNotPublishedError => "track not published error"@,
        PublisherErrorKind::DataChannelNotPublishedError => "data channel not published error"@,
    }
}

impl TransportErrorKind {
    /// A short description of the kind.
    pub fn as_str(&self) -> (r: &'static str)
        ensures
            r@ == transport_kind_text(*self),
    {
        match self {
            TransportErrorKind::PeerConnectionError => "peer connection error",
            TransportErrorKind::LocalDescriptionError => "local description error",
            TransportErrorKind::ICECandidateError => "ice candidate error",
        }
    }
}

impl SubscriberErrorKind {
    /// A short description of the kind.
    pub fn as_str(&self) -> (r: &'static str)
        ensures
            r@ == subscriber_kind_text(*self),
    {
        match self {
            SubscriberErrorKind::TrackNotFoundError => "track not found error",
            SubscriberErrorKind::DataChannelNotFoundError => "data channel not found error",
        }
    }
}

impl PublisherErrorKind {
    /// A short description of the kind.
    pub fn as_str(&self) -> (r: &'static str)
        ensures
            r@ == publisher_kind_text(*self),
    {
        match self {
            PublisherErrorKind::TrackNotPublishedError => "track not published error",
            PublisherErrorKind::DataChannelNotPublishedError => "data channel not published error",
        }
    }
}

/// "kind: message", the way each error of this library reads.
fn describe(kind: &str, message: &str) -> (r: String)
    ensures
        r@ == kind@ + ": "@ + message@,
{
    let head = String::from_str(kind);
    let head = head.concat(": ");
    head.concat(message)
}

/// A failure of a transport's signalling or peer connection.
#[derive(Clone, Debug)]
pub struct TransportError {
    pub kind: TransportErrorKind,
    pub message: String,
}

/// A failure to subscribe: the requested source does not exist.
#[derive(Clone, Debug)]
pub struct SubscriberError {
    pub kind: SubscriberErrorKind,
    pub message: String,
}

/// A failure to publish: the awaited track or channel never arrived.
#[derive(Clone, Debug)]
pub struct PublisherError {
    pub kind: PublisherErrorKind,
    pub message: String,
}

impl TransportError {
    /// The error as text: its kind, a colon, its message.
    pub fn to_text(&self) -> (r: String)
        ensures
            r@ == transport_kind_text(self.kind) + ": "@ + self.message@,
    {
        describe(self.kind.as_str(), self.message.as_str())
    }
}

impl SubscriberError {
    /// The error as text: its kind, a colon, its message.
    pub fn to_text(&self) -> (r: String)
        ensures
            r@ == subscriber_kind_text(self.kind) + ": "@ + self.message@,
    {
        describe(self.kind.as_str(), self.message.as_str())
    }
}

impl PublisherError {
    /// The error as text: its kind, a colon, its message.
    pub fn to_text(&self) -> (r: String)
        ensures
            r@ == publisher_kind_text(self.kind) + ": "@ + self.message@,
    {
        describe(self.kind.as_str(), self.message.as_str())
    }
}

/// Every failure this library reports.
#[derive(Debug)]
pub enum Error {
    /// A failure inside the peer-connection library, as that library
    /// describes it.
    WebRTCError(String),
    /// A session description that does not parse.
    SdpError(webrtc_sdp::error::SdpParserError),
    TransportError(TransportError),
    SubscriberError(SubscriberError),
    PublisherError(PublisherError),
}

impl Error {
    pub fn new_transport(message: String, kind: TransportErrorKind) -> (r: Error)
        ensures
            r matches Error::TransportError(e) && e.kind == kind && e.message@ == message@,
    {
        Error::TransportError(TransportError { kind, message })
    }

    pub fn new_subscriber(message: String, kind: SubscriberErrorKind) -> (r: Error)
        ensures
            r matches Error::SubscriberError(e) && e.kind == kind && e.message@ == message@,
    {
        Error::SubscriberError(SubscriberError { kind, message })
    }

    pub fn new_publisher(message: String, kind: PublisherErrorKind) -> (r: Error)
        ensures
            r matches Error::PublisherError(e) && e.kind == kind && e.message@ == message@,
    {
        Error::PublisherError(PublisherError { kind, message })
    }
}

/// The error of a subscribe whose publisher is not in the router.
pub fn track_not_found(publisher_id: &str) -> (r: Error)
    ensures
        r matches Error::SubscriberError(e) && e.kind == SubscriberErrorKind::TrackNotFoundError
            && e.message@ == "Publisher for "@ + publisher_id@ + " is not found"@,
{
    let m = String::from_str("Publisher for ").concat(publisher_id).concat(" is not found");
    Error::new_subscriber(m, SubscriberErrorKind::TrackNotFoundError)
}

/// The error of a data subscribe whose data publisher is not in the router.
pub fn data_channel_not_found(data_publisher_id: &str) -> (r: Error)
    ensures
        r matches Error::SubscriberError(e) && e.kind
            == SubscriberErrorKind::DataChannelNotFoundError && e.message@ == "DataPublisher for "@
            + data_publisher_id@ + " is not found"@,
{
    let m = String::from_str("DataPublisher for ").concat(data_publisher_id).concat(
        " is not found",
    );
    Error::new_subscriber(m, SubscriberErrorKind::DataChannelNotFoundError)
}

/// The error of a publish whose track never arrived.
pub fn track_not_published() -> (r: Error)
    ensures
        r matches Error::PublisherError(e) && e.kind == PublisherErrorKind::TrackNotPublishedError
            && e.message@ == "Failed to get published track"@,
{
    Error::new_publisher(
        String::from_str("Failed to get published track"),
        PublisherErrorKind::TrackNotPublishedError,
    )
}

/// The error of a data publish whose channel never arrived.
pub fn data_channel_not_published() -> (r: Error)
    ensures
        r matches Error::PublisherError(e) && e.kind
            == PublisherErrorKind::DataChannelNotPublishedError && e.message@
            == "Failed to get published data channel"@,
{
    Error::new_publisher(
        String::from_str("Failed to get published data channel"),
        PublisherErrorKind::DataChannelNotPublishedError,
    )
}

/// The error of a negotiation whose local description did not hold.
pub fn local_description_missing() -> (r: Error)
    ensures
        r matches Error::TransportError(e) && e.kind == TransportErrorKind::LocalDescriptionError
            && e.message@ == "Failed to set local description"@,
{
    Error::new_transport(
        String::from_str("Failed to set local description"),
        TransportErrorKind::LocalDescriptionError,
    )
}

} // verus!
