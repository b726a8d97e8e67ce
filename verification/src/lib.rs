//! A deterministic registry of identities and of the authorized tokens bound
//! to them, with its ownership-indexed bookkeeping.
//!
//! - [`ident`]: the 256-bit identifiers and accounts.
//! - [`table`]: a key-value table for such keys.
//! - [`collection`]: the indexed collection, with append and swap-remove.
//! - [`family`]: one indexed collection for each owner or each identity.
//! - [`idgen`]: identifiers from an entropy seed, the caller and a nonce.
//! - [`record`], [`event`], [`error`]: what is stored, reported and refused.
//! - [`state`]: the registry as a mathematical value, and what its
//!   operations keep true.
//! - [`registry`]: the registry itself.
//!
//! Every operation is a function of the state and its inputs, and either
//! applies in full or is rejected and leaves the state as it was.

pub mod collection;
pub mod error;
pub mod event;
pub mod family;
pub mod ident;
pub mod idgen;
pub mod record;
pub mod registry;
pub mod state;
pub mod table;
