//! Bech32m address encode/decode (xch1 / txch1).

use vstd::prelude::*;

use bech32::primitives::decode::CheckedHrpstring;
use bech32::{Bech32m, Hrp};

use crate::error::Error;
use crate::network::Network;
use crate::text::{
    ascii_lower_seq, ascii_upper_seq, is_white_space, lemma_trim_upper, lemma_trim_seq_idempotent,
    lemma_trim_seq_unchanged, starts_with_ascii_lowercase, starts_with_seq, str_equal, trim,
    trim_seq,
};

verus! {

/// What `CheckedHrpstring::new::<Bech32m>` makes of a string: the prefix in
/// lowercase and the payload bytes, or nothing when the string is not valid
/// bech32m.
pub uninterp spec fn bech32m_decoding(s: Seq<char>) -> Option<(Seq<char>, Seq<u8>)>;

/// The string that `bech32::encode::<Bech32m>` writes for a prefix and a payload.
pub uninterp spec fn bech32m_encoding(hrp: Seq<char>, data: Seq<u8>) -> Seq<char>;

/// The text (`Display`) of the error that `CheckedHrpstring::new::<Bech32m>`
/// returns for a string.
pub uninterp spec fn bech32m_decode_error(s: Seq<char>) -> Seq<char>;

/// The text (`Display`) of the error that `Hrp::parse` returns for a prefix.
pub uninterp spec fn hrp_parse_error(hrp: Seq<char>) -> Seq<char>;

/// The text (`Display`) of the error that `bech32::encode::<Bech32m>`
/// returns for a prefix and a payload.
pub uninterp spec fn bech32m_encode_error(hrp: Seq<char>, data: Seq<u8>) -> Seq<char>;

/// A human-readable prefix that `Hrp::parse` accepts: 1 to 83 ASCII characters
/// in `33..=126`, not mixing upper and lower case.
pub open spec fn is_valid_hrp(s: Seq<char>) -> bool {
    &&& 1 <= s.len() <= 83
    &&& forall|i: int| 0 <= i < s.len() ==> 33 <= #[trigger] (s[i] as u32) <= 126
    &&& !((exists|i: int| 0 <= i < s.len() && 'a' <= #[trigger] s[i] <= 'z') && (exists|j: int|
        0 <= j < s.len() && 'A' <= #[trigger] s[j] <= 'Z'))
}

/// The number of characters that a payload of `n` bytes takes, five bits each.
pub open spec fn data_chars(n: nat) -> nat {
    (n * 8 + 4) / 5
}

/// The facts about a string `s` that `bech32::encode::<Bech32m>` wrote for
/// `hrp` and `data`: it is that encoding, its length is the prefix, the
/// separator, five bits of payload per character and six checksum
/// characters, it starts with the lowercase prefix and the separator `1`, it
/// holds only printable ASCII without upper case, and decoding it gives back
/// the lowercase prefix and the payload.
pub open spec fn is_bech32m_of(s: Seq<char>, hrp: Seq<char>, data: Seq<u8>) -> bool {
    &&& s == bech32m_encoding(hrp, data)
    &&& s.len() == hrp.len() + 1 + data_chars(data.len()) + 6
    &&& s.subrange(0, hrp.len() as int) == ascii_lower_seq(hrp)
    &&& s[hrp.len() as int] == '1'
    &&& forall|i: int|
        0 <= i < s.len() ==> 33 <= #[trigger] (s[i] as u32) <= 126 && !('A' <= s[i] <= 'Z')
    &&& bech32m_decoding(s) == Some((ascii_lower_seq(hrp), data))
}

/// Why `bech32m_encode` failed.
enum EncodeFailure {
    Prefix(String),
    Encode(String),
}

/// Calls `CheckedHrpstring::new::<Bech32m>` on `s`. On success returns the
/// prefix through `Hrp::to_lowercase` (documented to return the prefix as a
/// lowercase string) and the payload bytes collected from `byte_iter`; on
/// failure, the error's text. A string that decodes decodes the same in ASCII
/// upper case: `check_characters` only refuses mixed case, `Hrp::parse`
/// accepts an upper-case prefix, `Fe32::from_char` maps both cases of a
/// character to one value, and the checksum runs over the lowercase prefix
/// bytes and those values.
#[verifier::external_body]
fn bech32m_decode(s: &str) -> (r: Result<(String, Vec<u8>), String>)
    ensures
        r is Ok <==> bech32m_decoding(s@) is Some,
        r matches Ok((h, d)) ==> bech32m_decoding(s@) == Some((h@, d@)),
        r matches Ok((h, _)) ==> ascii_lower_seq(h@) == h@,
        r matches Ok((h, d)) ==> bech32m_decoding(ascii_upper_seq(s@)) == Some((h@, d@)),
        r matches Err(m) ==> m@ == bech32m_decode_error(s@),
{
    match CheckedHrpstring::new::<Bech32m>(s) {
        Ok(checked) => Ok((checked.hrp().to_lowercase(), checked.byte_iter().collect())),
        Err(e) => Err(e.to_string()),
    }
}

/// Calls `Hrp::parse` on `hrp` and `bech32::encode::<Bech32m>` with the parsed
/// prefix and `data`. The claims: `Hrp::parse` fails exactly on an invalid
/// prefix (its source checks length, the byte range and mixed case); the
/// encoder fails only when the code would exceed 1023 characters (its
/// `encoded_length` check, `Bech32m::CODE_LENGTH`); the encoder writes the
/// prefix in lowercase, the separator `1`, then characters of the lowercase
/// bech32 alphabet; and decoding what it wrote gives the lowercase prefix and
/// `data` back. The length is the one `encoded_length` computes: prefix,
/// separator, `(8 * n + 4) / 5` payload characters and six checksum
/// characters. Each error carries its `Display` text.
#[verifier::external_body]
fn bech32m_encode(hrp: &str, data: &[u8]) -> (r: Result<String, EncodeFailure>)
    ensures
        r matches Err(EncodeFailure::Prefix(_)) <==> !is_valid_hrp(hrp@),
        r matches Err(EncodeFailure::Prefix(m)) ==> m@ == hrp_parse_error(hrp@),
        r matches Err(EncodeFailure::Encode(m)) ==> m@ == bech32m_encode_error(hrp@, data@),
        is_valid_hrp(hrp@) && hrp@.len() + 1 + data_chars(data@.len()) + 6 <= 1023 ==> r is Ok,
        r matches Ok(s) ==> s@ == bech32m_encoding(hrp@, data@),
        r matches Ok(s) ==> is_bech32m_of(s@, hrp@, data@),
{
    let parsed = match Hrp::parse(hrp) {
        Ok(h) => h,
        Err(e) => return Err(EncodeFailure::Prefix(e.to_string())),
    };
    match bech32::encode::<Bech32m>(parsed, data) {
        Ok(s) => Ok(s),
        Err(e) => Err(EncodeFailure::Encode(e.to_string())),
    }
}

/// Copies a 32-byte vector into an array.
fn to_bytes32(v: &Vec<u8>) -> (r: [u8; 32])
    requires
        v@.len() == 32,
    ensures
        r@ == v@,
{
    let mut arr = [0u8; 32];
    let mut i: usize = 0;
    while i < 32
        invariant
            i <= 32,
            v@.len() == 32,
            forall|j: int| 0 <= j < i ==> arr@[j] == v@[j],
        decreases 32 - i,
    {
        arr[i] = v[i];
        i = i + 1;
    }
    assert(arr@ =~= v@);
    arr
}

/// The prefix and 32-byte puzzle hash that an address decodes to, after
/// surrounding white space is removed; nothing when it does not decode or its
/// payload is not 32 bytes.
pub open spec fn decoded_address(addr: Seq<char>) -> Option<(Seq<char>, Seq<u8>)> {
    match bech32m_decoding(trim_seq(addr)) {
        Some((h, d)) => if d.len() == 32 {
            Some((h, d))
        } else {
            None
        },
        None => None,
    }
}

/// The string decodes, but its payload is not 32 bytes long.
pub open spec fn payload_not_puzzle_hash(s: Seq<char>) -> bool {
    match bech32m_decoding(s) {
        Some((_, d)) => d.len() != 32,
        None => false,
    }
}

/// Decodes a bech32m address into its lowercase prefix and puzzle hash.
/// Surrounding white space is ignored, and so is letter case: an address that
/// decodes decodes the same in ASCII upper case.
pub fn decode_address(addr: &str) -> (r: Result<(String, [u8; 32]), Error>)
    ensures
        bech32m_decoding(trim_seq(addr@)) is None ==> r matches Err(Error::InvalidAddress(_)),
        payload_not_puzzle_hash(trim_seq(addr@)) ==> r matches Err(Error::NotPuzzleHash),
        r is Ok <==> decoded_address(addr@) is Some,
        r matches Ok((h, ph)) ==> decoded_address(addr@) == Some((h@, ph@)),
        r matches Ok((h, _)) ==> ascii_lower_seq(h@) == h@,
        r matches Ok((h, ph)) ==> decoded_address(ascii_upper_seq(addr@)) == Some((h@, ph@)),
        r matches Err(Error::InvalidAddress(m)) ==> m@ == bech32m_decode_error(trim_seq(addr@)),
{
    proof {
        lemma_trim_upper(addr@);
    }
    let addr = trim(addr);
    match bech32m_decode(addr) {
        Err(e) => Err(Error::InvalidAddress(e)),
        Ok((hrp, bytes)) => {
            if bytes.len() != 32 {
                return Err(Error::NotPuzzleHash);
            }
            let ph = to_bytes32(&bytes);
            Ok((hrp, ph))
        },
    }
}

/// Encodes a puzzle hash as a bech32m address with the given prefix.
///
/// Fails exactly when the prefix is not a valid bech32 prefix. The address
/// decodes back to the lowercase prefix and the same puzzle hash.
pub fn encode_address(puzzle_hash: [u8; 32], hrp: &str) -> (r: Result<String, Error>)
    ensures
        r is Ok <==> is_valid_hrp(hrp@),
        r matches Err(e) ==> e is InvalidAddressPrefix,
        r matches Err(Error::InvalidAddressPrefix(m)) ==> m@ == hrp_parse_error(hrp@),
        r matches Ok(s) ==> s@.len() == hrp@.len() + 59,
        r matches Ok(s) ==> is_bech32m_of(s@, hrp@, puzzle_hash@),
        r matches Ok(s) ==> decoded_address(s@) == Some((ascii_lower_seq(hrp@), puzzle_hash@)),
{
    let data = puzzle_hash.as_slice();
    match bech32m_encode(hrp, data) {
        Ok(s) => {
            proof {
                lemma_encoded_is_trimmed(s@, hrp@, puzzle_hash@);
            }
            Ok(s)
        },
        Err(EncodeFailure::Prefix(e)) => Err(Error::InvalidAddressPrefix(e)),
        Err(EncodeFailure::Encode(e)) => Err(Error::EncodeAddress(e)),
    }
}

/// Printable ASCII holds no white space, so an encoding is its own trim.
proof fn lemma_encoded_is_trimmed(s: Seq<char>, hrp: Seq<char>, data: Seq<u8>)
    requires
        is_bech32m_of(s, hrp, data),
    ensures
        trim_seq(s) == s,
{
    if s.len() > 0 {
        assert(33 <= (s[0] as u32) <= 126);
        assert(33 <= (s.last() as u32) <= 126);
        assert(!is_white_space(s[0]));
        assert(!is_white_space(s.last()));
    }
    lemma_trim_seq_unchanged(s);
}

/// The network that an address prefix names: `xch` is mainnet, `txch` is testnet11.
pub open spec fn prefix_network(hrp: Seq<char>) -> Option<Network> {
    if hrp == "xch"@ {
        Some(Network::Mainnet)
    } else if hrp == "txch"@ {
        Some(Network::Testnet11)
    } else {
        None
    }
}

pub fn network_from_address_prefix(hrp: &str) -> (r: Option<Network>)
    ensures
        r == prefix_network(hrp@),
{
    if str_equal(hrp, "xch") {
        Some(Network::Mainnet)
    } else if str_equal(hrp, "txch") {
        Some(Network::Testnet11)
    } else {
        None
    }
}

/// Starts, in any ASCII case, like a Receive address: `xch1` or `txch1`.
pub open spec fn has_receive_prefix(s: Seq<char>) -> bool {
    starts_with_seq(ascii_lower_seq(s), "xch1"@) || starts_with_seq(ascii_lower_seq(s), "txch1"@)
}

/// The address decodes to a 32-byte puzzle hash under a prefix that names a
/// network (`xch` or `txch`).
pub open spec fn decodes_on_a_network(input: Seq<char>) -> bool {
    match decoded_address(input) {
        Some((h, _)) => prefix_network(h) is Some,
        None => false,
    }
}

/// A Receive address: after trimming, it starts with `xch1` or `txch1` in any
/// ASCII case, and it decodes to a 32-byte puzzle hash whose prefix is exactly
/// `xch` (mainnet) or `txch` (testnet11). Hex launcher ids are not.
pub open spec fn is_receive_address(input: Seq<char>) -> bool {
    has_receive_prefix(trim_seq(input)) && decodes_on_a_network(input)
}

/// Validate a vault Receive address (`xch1…` / `txch1…`). Hex launcher ids are rejected.
pub fn validate_receive_address(input: &str) -> (r: Result<(), Error>)
    ensures
        r is Ok <==> is_receive_address(input@),
        !has_receive_prefix(trim_seq(input@)) ==> r matches Err(Error::NotReceiveAddress),
        has_receive_prefix(trim_seq(input@)) && bech32m_decoding(trim_seq(input@)) is None
            ==> r matches Err(Error::InvalidAddress(_)),
        r matches Err(Error::InvalidAddress(m)) ==> m@ == bech32m_decode_error(trim_seq(input@)),
        has_receive_prefix(trim_seq(input@)) && payload_not_puzzle_hash(trim_seq(input@))
            ==> r matches Err(Error::NotPuzzleHash),
        has_receive_prefix(trim_seq(input@)) && decoded_address(input@) is Some
            && !decodes_on_a_network(input@) ==> r matches Err(Error::NotReceiveAddress),
{
    let trimmed = trim(input);
    proof {
        lemma_trim_seq_idempotent(input@);
    }
    if !starts_with_ascii_lowercase(trimmed, "xch1") && !starts_with_ascii_lowercase(
        trimmed,
        "txch1",
    ) {
        return Err(Error::NotReceiveAddress);
    }
    match decode_address(trimmed) {
        Ok((hrp, _)) => {
            if network_from_address_prefix(hrp.as_str()).is_none() {
                return Err(Error::NotReceiveAddress);
            }
            Ok(())
        },
        Err(e) => Err(e),
    }
}

/// Parse and return a trimmed Receive address. Hex launcher ids are rejected.
pub fn parse_receive_address(input: &str) -> (r: Result<String, Error>)
    ensures
        r is Ok <==> is_receive_address(input@),
        r matches Ok(s) ==> s@ == trim_seq(input@),
        !has_receive_prefix(trim_seq(input@)) ==> r matches Err(Error::NotReceiveAddress),
        has_receive_prefix(trim_seq(input@)) && bech32m_decoding(trim_seq(input@)) is None
            ==> r matches Err(Error::InvalidAddress(_)),
        r matches Err(Error::InvalidAddress(m)) ==> m@ == bech32m_decode_error(trim_seq(input@)),
        has_receive_prefix(trim_seq(input@)) && payload_not_puzzle_hash(trim_seq(input@))
            ==> r matches Err(Error::NotPuzzleHash),
        has_receive_prefix(trim_seq(input@)) && decoded_address(input@) is Some
            && !decodes_on_a_network(input@) ==> r matches Err(Error::NotReceiveAddress),
{
    let trimmed = trim(input);
    proof {
        lemma_trim_seq_idempotent(input@);
    }
    match validate_receive_address(trimmed) {
        Ok(()) => Ok(String::from_str(trimmed)),
        Err(e) => Err(e),
    }
}

/// Any puzzle hash encoded with the `xch` or `txch` prefix is a Receive
/// address: `parse_receive_address` accepts what `encode_address` wrote and
/// gives it back unchanged.
pub proof fn law_encoded_receive_address_accepted(ph: Seq<u8>, hrp: Seq<char>, s: Seq<char>)
    requires
        hrp == "xch"@ || hrp == "txch"@,
        ph.len() == 32,
        is_bech32m_of(s, hrp, ph),
    ensures
        is_receive_address(s),
        trim_seq(s) == s,
{
    lemma_encoded_is_trimmed(s, hrp, ph);
    reveal_strlit("xch");
    reveal_strlit("txch");
    reveal_strlit("xch1");
    reveal_strlit("txch1");
    let n = hrp.len() as int;
    assert(ascii_lower_seq(hrp) =~= hrp);
    let low = ascii_lower_seq(s);
    assert forall|i: int| 0 <= i <= n implies #[trigger] low[i] == s[i] by {
        assert(33 <= (s[i] as u32) <= 126);
        assert(!('A' <= s[i] <= 'Z'));
    }
    assert forall|i: int| 0 <= i < n implies #[trigger] s[i] == hrp[i] by {
        assert(s.subrange(0, n)[i] == hrp[i]);
    }
    assert(low[n] == '1');
    if hrp == "xch"@ {
        assert(low[0] == s[0]);
        assert(low[1] == s[1]);
        assert(low[2] == s[2]);
        assert(low.subrange(0, 4) =~= "xch1"@);
    } else {
        assert(low[0] == s[0]);
        assert(low[1] == s[1]);
        assert(low[2] == s[2]);
        assert(low[3] == s[3]);
        assert(low.subrange(0, 5) =~= "txch1"@);
    }
}

/// Decoding an encoded address gives back the lowercase prefix and the puzzle
/// hash; for `xch` and `txch` that prefix names the network.
pub proof fn law_address_round_trip(ph: Seq<u8>, hrp: Seq<char>, s: Seq<char>)
    requires
        ph.len() == 32,
        is_bech32m_of(s, hrp, ph),
    ensures
        decoded_address(s) == Some((ascii_lower_seq(hrp), ph)),
        hrp == "xch"@ ==> prefix_network(ascii_lower_seq(hrp)) == Some(Network::Mainnet),
        hrp == "txch"@ ==> prefix_network(ascii_lower_seq(hrp)) == Some(Network::Testnet11),
{
    lemma_encoded_is_trimmed(s, hrp, ph);
    reveal_strlit("xch");
    reveal_strlit("txch");
    if hrp == "xch"@ || hrp == "txch"@ {
        assert(ascii_lower_seq(hrp) =~= hrp);
    }
}

} // verus!

verus! {

/// A hex launcher id (`0x…`) is never taken for a Receive address.
pub proof fn law_hex_launcher_id_rejected(input: Seq<char>)
    requires
        starts_with_seq(trim_seq(input), "0x"@),
    ensures
        !is_receive_address(input),
        !has_receive_prefix(trim_seq(input)),
{
    reveal_strlit("0x");
    reveal_strlit("xch1");
    reveal_strlit("txch1");
    let t = trim_seq(input);
    assert(t.subrange(0, 2)[0] == t[0]);
    assert(ascii_lower_seq(t)[0] == '0');
    if t.len() >= 4 {
        assert(ascii_lower_seq(t).subrange(0, 4)[0] == '0');
        assert(ascii_lower_seq(t).subrange(0, 4) != "xch1"@);
    }
    if t.len() >= 5 {
        assert(ascii_lower_seq(t).subrange(0, 5)[0] == '0');
        assert(ascii_lower_seq(t).subrange(0, 5) != "txch1"@);
    }
}

/// What `parse_receive_address` returns is again accepted, and parsing it
/// gives it back unchanged.
pub proof fn law_parse_receive_address_idempotent(input: Seq<char>)
    ensures
        is_receive_address(trim_seq(input)) == is_receive_address(input),
        trim_seq(trim_seq(input)) == trim_seq(input),
{
    lemma_trim_seq_idempotent(input);
}

} // verus!
