//! A selective forwarding unit: the routing, feedback and signalling rules of a
//! media router that forwards each publisher's stream to many subscribers.
//!
//! The peer-connection work itself (ICE, DTLS-SRTP, RTP I/O) is done by the
//! webrtc crates; this library holds the decisions taken around it, each with
//! a contract.

pub mod candidates;
pub mod codecs;
pub mod config;
pub mod error;
pub mod extmap;
pub mod feedback;
pub mod forwarding;
pub mod media;
pub mod media_engine;
pub mod publish;
pub mod router;
pub mod signaling;
pub mod text;
