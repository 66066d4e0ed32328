//! Identity-alias registry core: a bounded set of cross-chain address
//! mappings per alias, committed to by a Merkle root, plus ownership-proof
//! verification and the ledger rules that drive both.
//!
//! The account/authorization layer around this core (signer checks, account
//! derivation, space accounting) hands it validated plain values; the core
//! performs the algorithmic work and states it in contracts.

pub mod codec;
pub mod ledger;
pub mod error;
pub mod merkle;
pub mod zkp;
