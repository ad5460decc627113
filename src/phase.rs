//! The phases that a connection passes through.

use vstd::prelude::*;

verus! {

/// `Idle → Handshaking → Established → Closing → Closed`, and no other way.
#[derive(Debug, Clone, Copy, PartialEq, Eq, Structural)]
pub enum Phase {
    Idle,
    Handshaking,
    Established,
    Closing,
    Closed,
}

} // verus!
