//! The Chia networks a vault can live on.

use vstd::prelude::*;

verus! {

/// A Chia network, chosen by the prefix of a Receive address.
#[derive(Clone, Copy, Debug, PartialEq, Eq, Structural)]
pub enum Network {
    Mainnet,
    Testnet11,
}

} // verus!
