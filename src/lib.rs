//! A minimal ledger: hash-linked blocks admitted by proof of work, holding
//! signed value transfers between keypair-identified accounts.

pub mod crypto;
pub mod encoding;
pub mod transaction;
pub mod address;
pub mod balances;
pub mod block;
pub mod blockchain;
pub mod config;

pub use address::Address;
pub use block::Block;
pub use blockchain::Blockchain;
pub use config::ServerConfig;
pub use crypto::{PrivateKey, PublicKey};
pub use transaction::Transaction;
