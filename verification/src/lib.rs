//! Incremental transaction-digest engine for the Sapling bundle of a Zcash
//! transaction, as computed by a hardware signer that receives the
//! transaction as a sequence of bounded-size messages.
//!
//! The heart of the crate is a resumable parsing/hashing state machine
//! ([`sapling::Parser`]) that consumes transaction bytes as they arrive,
//! keeps several personalized hash accumulators running concurrently, and
//! combines their digests in the fixed order required by the
//! transaction-digest algorithm. Around it stand a bounds-checked byte
//! cursor, transparent-address derivation (base58), BIP32 path decoding and
//! public-key helpers.

pub mod address;
pub mod amount;
pub mod balance;
pub mod bip32;
pub mod error;
pub mod hashing;
pub mod pubkey;
pub mod reader;
pub mod sapling;
