//! Settings of the gateway.
use vstd::prelude::*;

verus! {

/// Where the gateway announces itself and which STUN server its peer
/// connections use.
#[derive(Debug, Clone, PartialEq, Eq)]
pub struct Settings {
    pub peer_name: String,
    pub signaling_server_url: String,
    pub stun_server_url: String,
}

} // verus!
