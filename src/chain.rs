//! Identifiers and addresses of the chain, computed by the `bitcoin` crate.

use vstd::prelude::*;
use crate::text::{btc_text, signed_btc_text, txid_from_text, txid_text};

verus! {

/// The regtest address that a locking script pays to, where the script has one.
pub uninterp spec fn regtest_address(script: Seq<u8>) -> Option<Seq<char>>;

/// The view of an optional string.
pub open spec fn opt_text(s: Option<String>) -> Option<Seq<char>> {
    match s {
        Some(t) => Some(t@),
        None => None,
    }
}

/// Relies on `bitcoin::Address::from_script` with the regtest network: the
/// address of a standard locking script (pay-to-pubkey-hash, pay-to-script-hash
/// or witness program), and none for any other script.
#[verifier::external_body]
pub(crate) fn address_of_script(script: &Vec<u8>) -> (r: Option<String>)
    ensures
        opt_text(r) == regtest_address(script@),
{
    let script = bitcoin::Script::from_bytes(script.as_slice());
    bitcoin::Address::from_script(script, bitcoin::Network::Regtest).ok().map(|a| a.to_string())
}

/// The view of an optional byte vector.
pub open spec fn opt_bytes(b: Option<Vec<u8>>) -> Option<Seq<u8>> {
    match b {
        Some(v) => Some(v@),
        None => None,
    }
}

/// Relies on `bitcoin::Txid::from_str`: exactly 64 hex digits of either case,
/// read in pairs and reversed; none for any other text. A `Txid` holds 32 bytes.
#[verifier::external_body]
pub(crate) fn parse_txid(text: &str) -> (r: Option<Vec<u8>>)
    ensures
        opt_bytes(r) == txid_from_text(text@),
        r matches Some(b) ==> b@.len() == 32,
{
    <bitcoin::Txid as std::str::FromStr>::from_str(text).ok().map(|t| <bitcoin::Txid as bitcoin::hashes::Hash>::to_byte_array(t).to_vec())
}

/// Relies on the `Display` of `bitcoin::Txid`, built from its 32 bytes by
/// `Txid::from_byte_array`: lowercase hex, bytes in reverse order.
#[verifier::external_body]
pub(crate) fn format_txid(id: &Vec<u8>) -> (r: String)
    requires
        id@.len() == 32,
    ensures
        r@ == txid_text(id@),
{
    let bytes: [u8; 32] = id.as_slice().try_into().unwrap();
    <bitcoin::Txid as bitcoin::hashes::Hash>::from_byte_array(bytes).to_string()
}

/// Relies on `bitcoin::Amount::to_string_in` with `Denomination::Bitcoin`:
/// whole coins, then a point and the fraction without trailing zeros.
#[verifier::external_body]
pub(crate) fn format_btc(sats: u64) -> (r: String)
    ensures
        r@ == btc_text(sats),
{
    bitcoin::Amount::from_sat(sats).to_string_in(bitcoin::Denomination::Bitcoin)
}

/// Relies on `bitcoin::SignedAmount::to_string_in` with `Denomination::Bitcoin`:
/// a minus sign before a negative amount, then its magnitude as `Amount` writes it.
#[verifier::external_body]
pub(crate) fn format_signed_btc(sats: i64) -> (r: String)
    ensures
        r@ == signed_btc_text(sats),
{
    bitcoin::SignedAmount::from_sat(sats).to_string_in(bitcoin::Denomination::Bitcoin)
}

} // verus!
