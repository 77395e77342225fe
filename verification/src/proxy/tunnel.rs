//! What a handshake asks its driver to do, and what the driver reports back.

use vstd::prelude::*;
use crate::proxy::error::HandshakeError;

verus! {

/// What happened to the last I/O request of a handshake.
#[derive(Debug)]
pub enum TunnelEvent {
    /// All bytes of a `Send` were written.
    Sent,
    /// Writing failed; holds the I/O error's text.
    SendFailed(String),
    /// Bytes were read for a `ReceiveExact` or `ReceiveSome`.
    Received(Vec<u8>),
    /// Reading failed; holds the I/O error's text.
    ReceiveFailed(String),
}

/// The next step a handshake asks for.
#[derive(Debug)]
pub enum TunnelAction {
    /// Write all of these bytes to the proxy.
    Send(Vec<u8>),
    /// Read exactly this many bytes.
    ReceiveExact(usize),
    /// Read once, at most this many bytes (zero bytes read means the proxy
    /// closed the connection).
    ReceiveSome(usize),
    /// The tunnel is open.
    Done,
    /// The handshake failed.
    Fail(HandshakeError),
}

/// The ghost form of a next step.
pub enum Step {
    Send(Seq<u8>),
    ReceiveExact(nat),
    ReceiveSome(nat),
    Done,
    Fail(HandshakeError),
}

/// The action is the step.
pub open spec fn action_is(a: TunnelAction, s: Step) -> bool {
    match (a, s) {
        (TunnelAction::Send(v), Step::Send(b)) => v@ == b,
        (TunnelAction::ReceiveExact(n), Step::ReceiveExact(m)) => n == m,
        (TunnelAction::ReceiveSome(n), Step::ReceiveSome(m)) => n == m,
        (TunnelAction::Done, Step::Done) => true,
        (TunnelAction::Fail(e), Step::Fail(f)) => e == f,
        _ => false,
    }
}

} // verus!
