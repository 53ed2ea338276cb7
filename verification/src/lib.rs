//! Reconstruction of a payment's provenance from decoded transaction data:
//! which output paid the counterparty, which one returned change to the
//! paying wallet, and what fee the transaction left to the network.
//!
//! All amounts are whole numbers of satoshi, the smallest unit of the
//! currency; one coin is one hundred million of them.

pub mod amount;
pub mod conversation;
pub mod model;
pub mod provenance;
pub mod resolver;
pub mod summary;
