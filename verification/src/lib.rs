//! The on-ledger verification and storage pipeline of a cross-chain
//! messaging bridge: raw guardian-signed attestations are streamed into an
//! encoded-message account, checked against a versioned guardian set for a
//! signature quorum, and converted into an immutable posted record that
//! downstream programs consume at most once.

pub mod accounts;
pub mod bytes;
pub mod codec;
pub mod crypto;
pub mod errors;
pub mod instructions;
pub mod message;
pub mod registry;
pub mod store;
pub mod vaa;

use vstd::prelude::*;

verus! {

/// Number of bytes that precede the payload in a finalized posted-message
/// account: discriminator (4), consistency level (1), emitter authority (32),
/// status (1), gap (3), timestamp (4), nonce (4), sequence (8), chain (2),
/// emitter address (32), payload length (4).
pub const POSTED_MESSAGE_PAYLOAD_START: usize = 95;

/// Space a posted-message account needs for a payload of `payload_size` bytes.
pub fn compute_prepared_message_space(payload_size: usize) -> (r: usize)
    requires
        payload_size <= usize::MAX - 95,
    ensures
        r == POSTED_MESSAGE_PAYLOAD_START + payload_size,
{
    POSTED_MESSAGE_PAYLOAD_START + payload_size
}

} // verus!
