//! A verified model of the DIFTTT ("decentralised if-this-then-that") pallets:
//! triggers, actions and recipes kept in on-chain storage, the order book
//! used by the `BuyToken` action, and the decisions the off-chain worker takes
//! when it evaluates triggers and turns fired recipes into published tasks.
//!
//! Runtime plumbing (origins resolved by the runtime, HTTP, transaction
//! submission, off-chain storage) stays outside; this crate receives plain
//! values and hands plain values back.
pub mod bounded;
pub mod dex;
pub mod difttt;
pub mod support;
pub mod template;
pub mod text;
pub mod tokens;
