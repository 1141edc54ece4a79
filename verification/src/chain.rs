pub mod block;
pub mod blockchain;
pub mod ledger;
