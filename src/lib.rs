//! Block synchronisation core of a UTXO node's peer-to-peer layer.
//!
//! The per-peer state machine that exchanges headers and blocks with peers: it tracks
//! what each peer is known to have, bounds the blocks requested from each peer, keeps two
//! peers from downloading the same block, grades protocol violations, plans header
//! announcements and answers header and block requests from the local best chain. It also
//! holds the per-peer queue of transaction announcements, and a few chain and wallet types.
//! Chainstate, mempool, transport and timers stay with the caller: each operation takes the
//! outcome of that work as a plain value and returns what to send or report.
use vstd::prelude::*;

pub mod announce;
pub mod cached_operation;
pub mod chain;
pub mod config;
pub mod error;
pub mod headers;
pub mod height;
pub mod mempool;
pub mod message;
pub mod peer;
pub mod relay;
pub mod rpc_types;
pub mod setup;
pub mod signature;
pub mod sync;
pub mod tokens;
pub mod transport;
