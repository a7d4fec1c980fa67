//! Recover a Chia Cloud Wallet vault: address handling, lookup guidance and
//! reading the on-chain recovery hint.

pub mod address;
pub mod config;
pub mod error;
pub mod guidance;
pub mod clvm;
pub mod hint;
pub mod layout;
pub mod network;
pub mod status;
pub mod text;

pub use config::VaultConfig;
pub use error::Error;
pub use guidance::{KnownLauncher, LookupGap};
