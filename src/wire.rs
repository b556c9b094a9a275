//! Decoding of control datagrams.
//!
//! A datagram is accepted only when it holds exactly one control packet that
//! fills it from its first byte to its last.
use vstd::prelude::*;

verus! {

/// Size in bytes of the buffer a datagram is received into.
pub const RECV_BUFFER_LEN: usize = 1024;

#[verifier::external_type_specification]
#[verifier::external_body]
pub struct ExOscPacket(rosc::OscPacket);

#[verifier::external_type_specification]
#[verifier::external_body]
pub struct ExOscError(rosc::OscError);

/// What the control-protocol parser makes of a byte sequence: `None` where it
/// rejects the bytes, `Some(n)` where it reads one packet from their front and
/// leaves `n` bytes after it.
pub uninterp spec fn osc_udp_outcome(bytes: Seq<u8>) -> Option<nat>;

/// Why a datagram was discarded.
#[derive(Debug, Clone, Copy, PartialEq, Eq, Structural)]
pub enum DecodeError {
    /// The bytes do not start with a well-formed packet.
    Malformed,
    /// A packet was read, but this many bytes follow it.
    TrailingBytes(usize),
}

/// Relies on `rosc::decoder::decode_udp`: it reads one packet from the front
/// of the bytes, returning it with the slice of bytes that follow it, and
/// rejects an empty slice.
#[verifier::external_body]
fn parse_front(bytes: &[u8]) -> (r: Result<(usize, rosc::OscPacket), rosc::OscError>)
    ensures
        match r {
            Ok((rest, _)) => rest <= bytes@.len() && osc_udp_outcome(bytes@) == Some(rest as nat),
            Err(_) => osc_udp_outcome(bytes@) is None,
        },
        bytes@.len() == 0 ==> r is Err,
{
    match rosc::decoder::decode_udp(bytes) {
        Ok((rest, packet)) => Ok((rest.len(), packet)),
        Err(e) => Err(e),
    }
}

/// Accepts what the parser returned only where the packet took every byte.
pub fn accept_whole(parsed: Result<(usize, rosc::OscPacket), rosc::OscError>) -> (r: Result<
    rosc::OscPacket,
    DecodeError,
>)
    ensures
        match parsed {
            Ok((rest, packet)) => if rest == 0 {
                r == Ok::<rosc::OscPacket, DecodeError>(packet)
            } else {
                r == Err::<rosc::OscPacket, DecodeError>(DecodeError::TrailingBytes(rest))
            },
            Err(_) => r == Err::<rosc::OscPacket, DecodeError>(DecodeError::Malformed),
        },
{
    match parsed {
        Ok((rest, packet)) => {
            if rest == 0 {
                Ok(packet)
            } else {
                Err(DecodeError::TrailingBytes(rest))
            }
        },
        Err(_) => Err(DecodeError::Malformed),
    }
}

/// Decodes one received datagram.
pub fn decode_datagram(bytes: &[u8]) -> (r: Result<rosc::OscPacket, DecodeError>)
    requires
        bytes@.len() <= RECV_BUFFER_LEN,
    ensures
        r is Ok <==> osc_udp_outcome(bytes@) == Some(0nat),
        r == Err::<rosc::OscPacket, DecodeError>(DecodeError::Malformed) <==> osc_udp_outcome(
            bytes@,
        ) is None,
        forall|n: usize|
            r == Err::<rosc::OscPacket, DecodeError>(DecodeError::TrailingBytes(n)) <==> (n > 0
                && osc_udp_outcome(bytes@) == Some(n as nat)),
        bytes@.len() == 0 ==> r == Err::<rosc::OscPacket, DecodeError>(DecodeError::Malformed),
{
    accept_whole(parse_front(bytes))
}

} // verus!
