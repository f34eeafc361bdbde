//! Cross-ledger ticket ownership and marketplace protocol.
//!
//! A set of independently executing chains each holds the tickets it
//! currently owns; one designated hub chain is authoritative for the
//! event catalog and the marketplace listings.  This crate contains the
//! protocol logic: deterministic ticket-identity derivation, minting
//! against bounded supply, local and cross-chain ownership transfer with
//! bounce rollback, the listing state machine, royalty settlement, and
//! the hub/spoke stream-synchronization scheme.

pub mod codec;
pub mod contract;
pub mod digest;
pub mod protocol;
pub mod queries;
pub mod royalty;
pub mod state;
pub mod sync;
pub mod types;
