//! The public vault layout that a recovery hint reveals.

use vstd::prelude::*;

verus! {

/// A public key that can sign for a member of the vault, as its bytes.
#[derive(Clone, Copy, Debug, PartialEq, Eq)]
pub enum VaultMemberKey {
    /// A BLS G1 public key (48 bytes).
    Bls([u8; 48]),
    /// A secp256k1 public key, compressed (33 bytes).
    K1([u8; 33]),
    /// A secp256r1 public key, compressed (33 bytes).
    R1([u8; 33]),
    /// A passkey: a secp256r1 public key, compressed (33 bytes).
    Passkey([u8; 33]),
}

/// The custody side of the vault: everyday spends.
#[derive(Clone, Debug)]
pub struct VaultConfigSide {
    pub threshold: u32,
    /// The members that are keys, in memo order.
    pub keys: Vec<VaultMemberKey>,
    /// The members that are other vaults, by launcher id, in memo order.
    pub vaults: Vec<[u8; 32]>,
}

/// The recovery side of the vault, behind the clawback timelock.
#[derive(Clone, Debug)]
pub struct VaultConfigRecovery {
    pub threshold: u32,
    pub clawback_timelock: u64,
    /// The members that are keys, in memo order.
    pub keys: Vec<VaultMemberKey>,
    /// The members that are other vaults, by launcher id, in memo order.
    pub vaults: Vec<[u8; 32]>,
}

/// The public layout of a vault: its launcher, custody and recovery.
#[derive(Clone, Debug)]
pub struct VaultConfig {
    /// `0x` followed by the launcher id in lowercase hex.
    pub launcher_id: String,
    pub custody: VaultConfigSide,
    pub recovery: VaultConfigRecovery,
}

} // verus!
