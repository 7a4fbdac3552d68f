use vstd::prelude::*;

verus! {

/// Every failure the bridge can report. Each failure path surfaces exactly one
/// of these kinds, so callers can branch on the cause.
#[derive(Clone, Copy, Debug, PartialEq, Eq, Structural)]
pub enum BridgeError {
    /// A buffer did not match any accepted account layout.
    AccountDidNotDeserialize,
    /// An account could not be written in its layout.
    AccountDidNotSerialize,
    /// The target address already holds state.
    AlreadyInitialized,
    /// The message account is not in a writeable state.
    NotWriteable,
    /// The caller is not the write authority of the message account.
    WriteAuthorityMismatch,
    /// A write would fall outside the pre-allocated buffer.
    BufferOverflow,
    /// The attestation version is not the supported one.
    InvalidAttestationVersion,
    /// No guardian set exists at the referenced index.
    GuardianSetNotFound,
    /// The referenced guardian set has expired and a newer set exists.
    GuardianSetExpired,
    /// Signature guardian indices are not strictly ascending.
    SignatureIndicesOutOfOrder,
    /// A signature does not recover to the expected guardian key.
    InvalidGuardianSignature,
    /// Fewer valid signatures than the quorum threshold.
    QuorumNotMet,
    /// The message account is not verified yet.
    MessageNotVerified,
    /// A posted record already exists for this message.
    AlreadyFinalized,
    /// A claim record already exists for this (emitter, chain, sequence).
    MessageAlreadyClaimed,
    /// A guardian set was created with an index that does not follow the
    /// newest one.
    OutOfOrderGuardianSetIndex,
    /// The newest guardian set cannot be expired before a successor exists.
    NoSuccessorGuardianSet,
    /// No valid derived address exists for the given seeds.
    AddressUnavailable,
}

} // verus!
