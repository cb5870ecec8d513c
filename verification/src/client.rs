//! The transfers the clients send, and the shim's answers they read: a balance and a list
//! of accounts.
use vstd::prelude::*;
use crate::units::{words_value, word256_bound, Wei};
use crate::engine::json_transaction_ok;
use vstd::utf8::encode_utf8;

verus! {

/// Names the number that `serde_json::from_slice::<U256>` reads from `bytes`, if any.
pub uninterp spec fn json_u256(bytes: Seq<u8>) -> Option<nat>;

/// Names the addresses, as their 20 bytes each, that `serde_json::from_slice::<Vec<Address>>`
/// reads from `bytes`, if any.
pub uninterp spec fn json_addresses(bytes: Seq<u8>) -> Option<Seq<Seq<u8>>>;

/// Names the JSON text that `serde_json::to_string` writes for a transaction request from
/// `from` to `to` moving `value` wei with gas `gas` and, where given, nonce `nonce`.
pub uninterp spec fn transfer_request_json(from: Seq<u8>, to: Seq<u8>, value: nat, gas: nat, nonce: Option<nat>) -> Seq<char>;

/// Names the JSON text that `serde_json::to_string` writes for the parameters of a balance
/// query: the list of the account's address and the block tag.
pub uninterp spec fn balance_params_json(address: Seq<u8>, block: Seq<char>) -> Seq<char>;

/// Names the JSON bytes that `serde_json::to_vec` writes for the 256-bit quantity `value`.
pub uninterp spec fn json_u256_bytes(value: nat) -> Seq<u8>;

/// Names the JSON bytes that `serde_json::to_vec` writes for a 65-byte signature.
pub uninterp spec fn json_signature_bytes(signature: Seq<u8>) -> Seq<u8>;

/// Names the JSON bytes that `serde_json::to_vec` writes for a list of addresses.
pub uninterp spec fn json_addresses_bytes(addresses: Seq<Seq<u8>>) -> Seq<u8>;

/// Calls `serde_json::to_string` on `TransactionRequest::new().from(from).to(to).value(value)
/// .gas(gas)`. Its derived `Serialize` writes only set options, addresses and hex quantities
/// (`NameOrAddress::Address` for `to`), none of which fails into a string; its derived
/// `Deserialize` reads such a text back as a transaction request.
#[verifier::external_body]
fn transfer_request_to_string(from: [u8; 20], to: [u8; 20], value: [u64; 4], gas: usize) -> (r: Result<String, serde_json::Error>)
    ensures
        r is Ok,
        r->Ok_0@ == transfer_request_json(from@, to@, words_value(value@), gas as nat, None),
        json_transaction_ok(encode_utf8(r->Ok_0@)),
{
    let tx = ethers_core::types::TransactionRequest::new()
        .from(ethereum_types::H160(from))
        .to(ethereum_types::H160(to))
        .value(ethereum_types::U256(value))
        .gas(gas);
    serde_json::to_string(&tx)
}

/// Calls `serde_json::to_string` on `TransactionRequest::new().from(from).to(to).value(value)
/// .gas(gas).nonce(nonce)`, which does not fail and reads back, as for
/// `transfer_request_to_string`. The text carries the nonce as its `nonce` field, so a
/// transfer with another nonce has another text.
#[verifier::external_body]
fn transfer_request_with_nonce_to_string(from: [u8; 20], to: [u8; 20], value: [u64; 4], gas: usize, nonce: usize) -> (r: Result<String, serde_json::Error>)
    ensures
        r is Ok,
        r->Ok_0@ == transfer_request_json(from@, to@, words_value(value@), gas as nat, Some(nonce as nat)),
        json_transaction_ok(encode_utf8(r->Ok_0@)),
        forall|f: Seq<u8>, t: Seq<u8>, v: nat, g: nat, n: nat|
            f.len() == 20 && t.len() == 20 && v < word256_bound() && g <= usize::MAX && n <= usize::MAX && n != nonce
            ==> #[trigger] transfer_request_json(f, t, v, g, Some(n)) != r->Ok_0@,
{
    let tx = ethers_core::types::TransactionRequest::new()
        .from(ethereum_types::H160(from))
        .to(ethereum_types::H160(to))
        .value(ethereum_types::U256(value))
        .gas(gas)
        .nonce(nonce);
    serde_json::to_string(&tx)
}

/// Calls `serde_json::to_string` on the pair of `ethereum_types::H160(address)` and the
/// block tag, which serde writes as a two-element JSON list; an address serialises as a hex
/// string and a tag as a string, neither of which fails.
#[verifier::external_body]
fn balance_params_to_string(address: [u8; 20], block: &str) -> (r: Result<String, serde_json::Error>)
    ensures
        r is Ok,
        r->Ok_0@ == balance_params_json(address@, block@),
{
    serde_json::to_string(&(ethereum_types::H160(address), block))
}

/// Calls `serde_json::to_string` on an empty `Vec<serde_json::Value>`, which writes the
/// empty JSON list.
#[verifier::external_body]
fn empty_params_to_string() -> (r: Result<String, serde_json::Error>)
    ensures
        r is Ok,
        r->Ok_0@ == "[]"@,
{
    serde_json::to_string(&Vec::<serde_json::Value>::new())
}

/// The parameters of a balance query for the account at `address`, at the block `block`.
pub fn balance_params(address: [u8; 20], block: &str) -> (s: String)
    ensures
        s@ == balance_params_json(address@, block@),
{
    match balance_params_to_string(address, block) {
        Ok(s) => s,
        Err(_) => {
            proof { assert(false); }
            String::new()
        },
    }
}

/// The parameters of the client's balance query for the account at `address`: at the latest
/// block.
pub fn latest_balance_params(address: [u8; 20]) -> (s: String)
    ensures
        s@ == balance_params_json(address@, "latest"@),
{
    balance_params(address, "latest")
}

/// The parameters of the client's accounts query: none.
pub fn accounts_params() -> (s: String)
    ensures
        s@ == "[]"@,
{
    match empty_params_to_string() {
        Ok(s) => s,
        Err(_) => {
            proof { assert(false); }
            String::new()
        },
    }
}

/// Calls `serde_json::to_vec` on `ethereum_types::U256(value)`. impl-serde writes the
/// quantity as a `0x`-prefixed hex string without leading zeros (`"0x0"` for zero), which
/// does not fail, and its `Deserialize` reads that string back as the same quantity.
#[verifier::external_body]
fn u256_to_vec(value: [u64; 4]) -> (r: Result<Vec<u8>, serde_json::Error>)
    ensures
        r is Ok,
        r->Ok_0@ == json_u256_bytes(words_value(value@)),
        json_u256(r->Ok_0@) == Some(words_value(value@)),
{
    serde_json::to_vec(&ethereum_types::U256(value))
}

/// Calls `serde_json::to_vec` on the addresses as `Vec<ethereum_types::H160>`. impl-serde
/// writes each as a `0x`-prefixed string of 40 hex digits, which does not fail, and its
/// `Deserialize` reads such a list back as the same addresses in the same order.
#[verifier::external_body]
fn addresses_to_vec(addresses: &Vec<[u8; 20]>) -> (r: Result<Vec<u8>, serde_json::Error>)
    ensures
        r is Ok,
        r->Ok_0@ == json_addresses_bytes(addresses@.map_values(|x: [u8; 20]| x@)),
        json_addresses(r->Ok_0@) == Some(addresses@.map_values(|x: [u8; 20]| x@)),
{
    let list: Vec<ethereum_types::H160> = addresses.iter().map(|a| ethereum_types::H160(*a)).collect();
    serde_json::to_vec(&list)
}

/// Calls `serde_json::to_vec` on `ethereum_types::H520(signature)`. impl-serde writes a
/// fixed-size hash as a `0x`-prefixed hex string, which does not fail.
#[verifier::external_body]
fn signature_to_vec(signature: [u8; 65]) -> (r: Result<Vec<u8>, serde_json::Error>)
    ensures
        r is Ok,
        r->Ok_0@ == json_signature_bytes(signature@),
{
    serde_json::to_vec(&ethereum_types::H520(signature))
}

/// The engine's answer to a signature query: the signature as JSON.
pub fn signature_reply(signature: &[u8; 65]) -> (r: Vec<u8>)
    ensures
        r@ == json_signature_bytes(signature@),
{
    match signature_to_vec(*signature) {
        Ok(bytes) => bytes,
        Err(_) => {
            proof { assert(false); }
            Vec::new()
        },
    }
}

/// The JSON text of the demonstration client's transfer from `from` to `to` of `value` wei,
/// with the gas of a plain transfer (21000) and no nonce.
pub fn transfer_text(from: [u8; 20], to: [u8; 20], value: &Wei) -> (s: String)
    ensures
        s@ == transfer_request_json(from@, to@, value@, 21000, None),
        json_transaction_ok(encode_utf8(s@)),
{
    match transfer_request_to_string(from, to, value.limbs, 21000) {
        Ok(s) => s,
        Err(_) => {
            proof { assert(false); }
            String::new()
        },
    }
}

/// The JSON text of a transfer from `from` to `to` of `value` wei with gas `gas` and nonce
/// `nonce`.
pub fn transfer_text_with_nonce(from: [u8; 20], to: [u8; 20], value: &Wei, gas: usize, nonce: usize) -> (s: String)
    ensures
        s@ == transfer_request_json(from@, to@, value@, gas as nat, Some(nonce as nat)),
        json_transaction_ok(encode_utf8(s@)),
        forall|f: Seq<u8>, t: Seq<u8>, v: nat, g: nat, n: nat|
            f.len() == 20 && t.len() == 20 && v < word256_bound() && g <= usize::MAX && n <= usize::MAX && n != nonce
            ==> #[trigger] transfer_request_json(f, t, v, g, Some(n)) != s@,
{
    match transfer_request_with_nonce_to_string(from, to, value.limbs, gas, nonce) {
        Ok(s) => s,
        Err(_) => {
            proof { assert(false); }
            String::new()
        },
    }
}

/// The engine's answer to a quantity query: the quantity as JSON, which the client's
/// `balance_from_reply` reads back as the same quantity.
pub fn quantity_reply(value: &Wei) -> (r: Vec<u8>)
    ensures
        r@ == json_u256_bytes(value@),
        json_u256(r@) == Some(value@),
{
    match u256_to_vec(value.limbs) {
        Ok(bytes) => bytes,
        Err(_) => {
            proof { assert(false); }
            Vec::new()
        },
    }
}

/// The engine's answer to an accounts query: the addresses as JSON, which the client's
/// `accounts_from_reply` reads back as the same addresses in the same order.
pub fn accounts_reply(addresses: &Vec<[u8; 20]>) -> (r: Vec<u8>)
    ensures
        r@ == json_addresses_bytes(addresses@.map_values(|x: [u8; 20]| x@)),
        json_addresses(r@) == Some(addresses@.map_values(|x: [u8; 20]| x@)),
{
    match addresses_to_vec(addresses) {
        Ok(bytes) => bytes,
        Err(_) => {
            proof { assert(false); }
            Vec::new()
        },
    }
}

/// Calls `serde_json::from_slice::<ethereum_types::U256>` and hands out the value's four
/// little-endian words.
#[verifier::external_body]
fn json_from_slice_u256(bytes: &[u8]) -> (r: Result<[u64; 4], serde_json::Error>)
    ensures
        (r is Ok) == (json_u256(bytes@) is Some),
        r is Ok ==> json_u256(bytes@) == Some(words_value(r->Ok_0@)),
{
    match serde_json::from_slice::<ethereum_types::U256>(bytes) {
        Ok(v) => Ok(v.0),
        Err(e) => Err(e),
    }
}

/// Calls `serde_json::from_slice::<Vec<ethereum_types::H160>>` and hands out each address's
/// 20 bytes.
#[verifier::external_body]
fn json_from_slice_addresses(bytes: &[u8]) -> (r: Result<Vec<[u8; 20]>, serde_json::Error>)
    ensures
        (r is Ok) == (json_addresses(bytes@) is Some),
        r is Ok ==> json_addresses(bytes@) == Some(r->Ok_0@.map_values(|x: [u8; 20]| x@)),
{
    match serde_json::from_slice::<Vec<ethereum_types::H160>>(bytes) {
        Ok(v) => Ok(v.into_iter().map(|a| a.0).collect()),
        Err(e) => Err(e),
    }
}

/// The balance in an `eth_getBalance` answer; `None` where the body is not a JSON quantity.
pub fn balance_from_reply(body: &[u8]) -> (r: Option<Wei>)
    ensures
        (r is Some) == (json_u256(body@) is Some),
        r matches Some(w) ==> json_u256(body@) == Some(w@),
{
    match json_from_slice_u256(body) {
        Ok(limbs) => Some(Wei { limbs }),
        Err(_) => None,
    }
}

/// The accounts in an `eth_accounts` answer, as 20-byte addresses; `None` where the body is
/// not a JSON list of addresses.
pub fn accounts_from_reply(body: &[u8]) -> (r: Option<Vec<[u8; 20]>>)
    ensures
        (r is Some) == (json_addresses(body@) is Some),
        r matches Some(a) ==> json_addresses(body@) == Some(a@.map_values(|x: [u8; 20]| x@)),
{
    match json_from_slice_addresses(body) {
        Ok(addresses) => Some(addresses),
        Err(_) => None,
    }
}

} // verus!
