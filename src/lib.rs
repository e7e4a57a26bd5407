//! A single-node ledger: pending transactions are sealed into blocks, each
//! block carries a proof of work anchored on its predecessor's digest, and
//! blocks are chained by digest.
pub mod block;
pub mod hash_engine;
pub mod ledger;
pub mod transaction;
