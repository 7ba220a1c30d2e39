//! A ledger simulation in which unspent outputs are attested by a set
//! commitment: miners forge and validate blocks against the commitment,
//! users fetch membership witnesses before they spend.

pub mod acc;
pub mod bridge;
pub mod miner;
pub mod state;
pub mod user;
