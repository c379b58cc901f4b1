//! Receiving an RTP audio stream announced by an SDP session description and
//! preparing it for playback: the session description parser, the RTP receive
//! logic, the PCM decoder, the elastic playback buffer and the level meter.
//!
//! Everything here computes on plain values. Sockets, the audio device,
//! clocks and channels belong to the caller, who feeds events in and carries
//! the returned actions out.

pub mod descriptor;
pub mod audio;
pub mod error;
pub mod pattern;
pub mod pcm;
pub mod preset;
pub mod sdp;
pub mod stream;
pub mod text;

pub use descriptor::{BitDepth, Ipv4Address, PacketTime, SessionDescriptor, Status};
