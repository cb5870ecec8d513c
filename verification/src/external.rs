//! Declarations of the outside types that pass through the library.
use vstd::prelude::*;

verus! {

/// `serde_json`'s parse error, carried through opaque.
#[verifier::external_type_specification]
#[verifier::external_body]
pub struct ExJsonError(serde_json::Error);

/// `bincode`'s error kind, carried through opaque.
#[verifier::external_type_specification]
#[verifier::external_body]
pub struct ExBincodeErrorKind(bincode::ErrorKind);


/// The unit-conversion error of `ethers-core`, carried through opaque.
#[verifier::external_type_specification]
#[verifier::external_body]
pub struct ExConversionError(ethers_core::utils::ConversionError);


/// A 20-byte account address of `ethereum-types`.
#[verifier::external_type_specification]
#[verifier::external_body]
pub struct ExH160(ethereum_types::H160);


/// A transaction request of `ethers-core`.
#[verifier::external_type_specification]
#[verifier::external_body]
pub struct ExTransactionRequest(ethers_core::types::TransactionRequest);

} // verus!
