//! What the datagram transport computes around its reads.

use vstd::prelude::*;
use crate::packet::{decode, DecodeError, Packet, HEADER_LEN};

verus! {

/// Turns the first `received` bytes of a receive buffer into a segment.
/// Fails exactly when they cannot hold a header; a segment whose checksum
/// fails gives `Ok(None)` (with checksums not yet computed, none does).
pub fn receive_datagram(buffer: Vec<u8>, received: usize) -> (r: Result<Option<Packet>, DecodeError>)
    requires
        received <= buffer@.len(),
    ensures
        r is Err <==> received < HEADER_LEN,
        r matches Err(e) ==> e == DecodeError::Truncated,
        r matches Ok(o) ==> o matches Some(p) && p@ == decode(buffer@.take(received as int)),
{
    let mut buffer = buffer;
    buffer.truncate(received);
    let packet = Packet::from_bytes(buffer)?;
    if packet.check_sum() {
        Ok(Some(packet))
    } else {
        Ok(None)
    }
}

} // verus!
