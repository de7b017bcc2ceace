//! Core of a vault-custody daemon: the engine that keeps an in-memory model
//! of every vault in step with a full node, and the pieces around it — the
//! retry policy of the node connection, the reconciliation of known UTXOs
//! against the node's unspent list, the vault lifecycle state machine, and
//! the message handling of the coordination hub.
//!
//! Everything that talks to the network lives outside this crate; the
//! functions here take the node's answers as plain values and are verified
//! against the behaviour the daemon relies on.

pub mod batch;
pub mod bitcoind;
pub mod errors;
pub mod hub;
pub mod retry;
pub mod sync;
pub mod txrules;
pub mod types;
pub mod vault;
pub mod wallet_tx;
pub mod utxomap;

use vstd::prelude::*;

verus! {

} // verus!
