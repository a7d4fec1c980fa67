//! The library's error type.

use vstd::prelude::*;

verus! {

/// Why an address could not be read or written.
#[derive(Clone, Debug)]
pub enum Error {
    /// The text is not a valid bech32m string; holds the decoder's explanation.
    InvalidAddress(String),
    /// The address decodes, but its payload is not 32 bytes long.
    NotPuzzleHash,
    /// The human-readable prefix is not a valid bech32 prefix; holds the explanation.
    InvalidAddressPrefix(String),
    /// The encoder refused the input; holds the explanation.
    EncodeAddress(String),
    /// The input is not an `xch1…` / `txch1…` Receive address.
    NotReceiveAddress,
}

pub const RECEIVE_ADDRESS_HELP: &'static str =
    "expected vault Receive address (xch1… for mainnet, or txch1… for testnet11)";

pub const NOT_PUZZLE_HASH: &'static str = "address payload is not a 32-byte puzzle hash";

/// The text that a user sees for an error.
pub open spec fn error_text(e: Error) -> Seq<char> {
    match e {
        Error::InvalidAddress(m) => "invalid address: "@ + m@,
        Error::NotPuzzleHash => NOT_PUZZLE_HASH@,
        Error::InvalidAddressPrefix(m) => "invalid address prefix: "@ + m@,
        Error::EncodeAddress(m) => "encode address: "@ + m@,
        Error::NotReceiveAddress => RECEIVE_ADDRESS_HELP@,
    }
}

impl Error {
    /// The message shown to the user.
    pub fn message(&self) -> (r: String)
        ensures
            r@ == error_text(*self),
    {
        match self {
            Error::InvalidAddress(m) => {
                let mut s = String::from_str("invalid address: ");
                s.append(m.as_str());
                s
            },
            Error::NotPuzzleHash => String::from_str(NOT_PUZZLE_HASH),
            Error::InvalidAddressPrefix(m) => {
                let mut s = String::from_str("invalid address prefix: ");
                s.append(m.as_str());
                s
            },
            Error::EncodeAddress(m) => {
                let mut s = String::from_str("encode address: ");
                s.append(m.as_str());
                s
            },
            Error::NotReceiveAddress => String::from_str(RECEIVE_ADDRESS_HELP),
        }
    }
}

} // verus!
