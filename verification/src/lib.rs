pub mod balance;
pub mod bundle;
pub mod bundle_laws;
pub mod double;
pub mod instruction;
pub mod limits;
pub mod miner;
pub mod rpc;
pub mod send;
pub mod send_laws;
pub mod session;
pub mod text;
pub mod transaction;
