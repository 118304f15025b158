//! Peer-to-peer transport: media preparation and session control.

pub mod codec;
pub mod sender;
pub mod viewer;

use vstd::prelude::*;

verus! {

/// STUN servers for both sides.
pub fn stun_servers() -> (urls: Vec<&'static str>)
    ensures
        urls@.len() == 2,
        urls@[0]@ == "stun:stun.cloudflare.com:3478"@,
        urls@[1]@ == "stun:stun.l.google.com:19302"@,
{
    let mut urls: Vec<&'static str> = Vec::new();
    urls.push("stun:stun.cloudflare.com:3478");
    urls.push("stun:stun.l.google.com:19302");
    urls
}

/// Time that both sides give WebRTC before they turn to the relay. A handshake
/// that works is done well before.
pub const CONNECT_TIMEOUT_SECS: u64 = 4;

/// State of the peer connection.
#[derive(Clone, Copy, Debug, PartialEq, Eq, Structural)]
pub enum PeerState {
    New,
    Connecting,
    Connected,
    Disconnected,
    Failed,
    Closed,
}

impl PeerState {
    /// Whether the connection is gone or cannot come about.
    pub open spec fn is_down(self) -> bool {
        self is Failed || self is Disconnected || self is Closed
    }

    pub fn down(&self) -> (r: bool)
        ensures
            r == self.is_down(),
    {
        match self {
            PeerState::Failed | PeerState::Disconnected | PeerState::Closed => true,
            _ => false,
        }
    }
}

/// A connection is down once it has failed, was interrupted or was closed.
pub proof fn law_down_states(state: PeerState)
    ensures
        state.is_down() <==> state == PeerState::Failed || state == PeerState::Disconnected || state
            == PeerState::Closed,
{
}

} // verus!
