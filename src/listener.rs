//! The control listener's decision for each turn of its receive loop.
//!
//! The listener blocks on its socket for a bounded time; each outcome of that
//! wait is handed to `on_receive`, which says what to do with it.
use crate::wire::{decode_datagram, osc_udp_outcome, DecodeError, RECV_BUFFER_LEN};
use vstd::prelude::*;
use vstd::slice::slice_subrange;

verus! {

/// How one wait on the socket ended.
#[derive(Debug, Clone, Copy, PartialEq, Eq, Structural)]
pub enum ReceiveOutcome {
    /// A datagram of this many bytes arrived at the front of the buffer.
    Datagram(usize),
    /// Nothing arrived before the receive timeout.
    TimedOut,
    /// The socket reported another error.
    Failed,
}

/// What the listener does next.
#[derive(Debug)]
pub enum ListenerAction {
    /// Send the decoded packet down the channel to the render thread.
    Forward(rosc::OscPacket),
    /// Drop the datagram: it is not exactly one well-formed packet.
    Discard(DecodeError),
    /// Report the socket error and wait again.
    Report,
    /// Wait again; a timeout is no error.
    Wait,
}

/// Decides what to do with one outcome of the receive wait on `buf`.
pub fn on_receive(buf: &[u8], outcome: ReceiveOutcome) -> (r: ListenerAction)
    requires
        buf@.len() <= RECV_BUFFER_LEN,
        outcome matches ReceiveOutcome::Datagram(n) ==> n <= buf@.len(),
    ensures
        outcome == ReceiveOutcome::TimedOut ==> r is Wait,
        outcome == ReceiveOutcome::Failed ==> r is Report,
        outcome matches ReceiveOutcome::Datagram(n) ==> {
            let bytes = buf@.subrange(0, n as int);
            &&& (r is Forward <==> osc_udp_outcome(bytes) == Some(0nat))
            &&& (r == ListenerAction::Discard(DecodeError::Malformed) <==> osc_udp_outcome(
                bytes,
            ) is None)
            &&& forall|k: usize|
                r == ListenerAction::Discard(DecodeError::TrailingBytes(k)) <==> (k > 0
                    && osc_udp_outcome(bytes) == Some(k as nat))
        },
{
    match outcome {
        ReceiveOutcome::Datagram(n) => {
            match decode_datagram(slice_subrange(buf, 0, n)) {
                Ok(packet) => ListenerAction::Forward(packet),
                Err(e) => ListenerAction::Discard(e),
            }
        },
        ReceiveOutcome::TimedOut => ListenerAction::Wait,
        ReceiveOutcome::Failed => ListenerAction::Report,
    }
}

} // verus!
