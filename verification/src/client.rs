//! The transport policy of one upstream exchange. The network work
//! itself — UDP datagrams, the TLS session — happens outside; this
//! module decides, from what came back, what to do next.

use vstd::prelude::*;

verus! {

/// Where one upstream exchange stands: nothing sent yet, the
/// DNS-over-TLS attempt answered (`None` covers a transport failure and
/// an answer that was not useful), or the cleartext retry answered.
pub enum ClientState {
    Start { use_tls: bool },
    DotReturned { outcome: Option<Vec<u8>> },
    UdpReturned { outcome: Option<Vec<u8>> },
}

/// What the caller must do next for the exchange.
pub enum ClientAction {
    /// Send the query over DNS over TLS, TCP port 853.
    SendDot,
    /// Send the query over cleartext UDP, port 53.
    SendUdp,
    /// The exchange is over, with this verdict.
    Finish(Option<Vec<u8>>),
}

/// The transport policy: a TLS upstream is tried over DNS over TLS
/// first and retried once over cleartext UDP when that attempt fails or
/// yields nothing useful; a plain upstream goes straight to UDP; the
/// retry's verdict is final.
pub fn client_step(state: ClientState) -> (r: ClientAction)
    ensures
        state matches ClientState::Start { use_tls } ==> r == (if use_tls {
            ClientAction::SendDot
        } else {
            ClientAction::SendUdp
        }),
        state matches ClientState::DotReturned { outcome } ==> r == (match outcome {
            Some(v) => ClientAction::Finish(Some(v)),
            None => ClientAction::SendUdp,
        }),
        state matches ClientState::UdpReturned { outcome } ==> r == ClientAction::Finish(outcome),
{
    match state {
        ClientState::Start { use_tls } => {
            if use_tls {
                ClientAction::SendDot
            } else {
                ClientAction::SendUdp
            }
        },
        ClientState::DotReturned { outcome } => {
            match outcome {
                Some(v) => ClientAction::Finish(Some(v)),
                None => ClientAction::SendUdp,
            }
        },
        ClientState::UdpReturned { outcome } => ClientAction::Finish(outcome),
    }
}

} // verus!
