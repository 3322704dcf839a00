//! Session orchestration, signaling and H.264 framing for a gateway that relays
//! an RTSP video source to WebRTC peers.
use vstd::prelude::*;

pub mod client;
pub mod nal;
pub mod registry;
pub mod session;
pub mod settings;
pub mod signaling;

verus! {

} // verus!
