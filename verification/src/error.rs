use vstd::prelude::*;

verus! {

/// Error codes surfaced by the registry core.  Every failure condition maps
/// to exactly one variant, detected synchronously at the point of violation;
/// an operation that fails leaves all state unchanged.
#[derive(Clone, Copy, Debug, PartialEq, Eq, Structural)]
pub enum EchoIDError {
    /// Malformed instruction data, such as proof bytes of the wrong shape.
    InvalidInstruction,
    /// The caller's signature check failed.
    InvalidSigner,
    /// Supplied witness data does not reproduce the stored commitment.
    InvalidDerivedAccount,
    /// An alias record already exists at the derived identity.
    AliasAlreadyExists,
    /// No alias record exists at the derived identity.
    AliasDoesNotExist,
    /// The caller does not own the alias record.
    InvalidOwner,
    /// The username contains a character it must not hold.
    InvalidUsername,
    /// The username exceeds the reserved capacity.
    AliasTooLong,
    /// The payer cannot fund the requested allocation.
    InsufficientFunds,
    /// A mapping for this chain id is already registered for the alias.
    ChainIDAlreadyExists,
    /// The alias already holds the maximum number of chain mappings.
    MaxChainMappingsReached,
    /// The requested reputation change is outside policy.
    InvalidReputationChange,
    /// The reputation account has not been initialized.
    ReputationAccountNotInitialized,
    /// The cross-chain account has not been initialized.
    CrossChainAccountNotInitialized,
}

} // verus!
