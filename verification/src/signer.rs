//! Key validation and address derivation through the local signer.

use vstd::prelude::*;
use crate::hexkey::spec_hex_key;

verus! {

/// Whether the local signer accepts a string as a private key: 64 hex
/// digits, optionally `0x`-prefixed, naming a nonzero scalar in range.
/// Acceptance is a function of the characters alone.
pub uninterp spec fn key_parses(s: Seq<char>) -> bool;

/// The checksummed address string the signer derives from a key; the
/// derivation is a function of the key characters alone.
pub uninterp spec fn address_of(s: Seq<char>) -> Seq<char>;

/// Relies on `alloy_signer_local::PrivateKeySigner::from_str`, which
/// accepts exactly the well-formed keys and builds a signer whose stored
/// address is computed from the key material alone, and on
/// `LocalSigner::address`, which returns that stored address. On refusal
/// the signer error's display text is handed back as the cause.
#[verifier::external_body]
pub fn derive_address(key: &str) -> (r: Result<String, String>)
    ensures
        (r is Ok) == key_parses(key@),
        r matches Ok(a) ==> a@ == address_of(key@),
{
    match key.parse::<alloy_signer_local::PrivateKeySigner>() {
        Ok(s) => Ok(s.address().to_string()),
        Err(e) => Err(e.to_string()),
    }
}

/// Relies on `PrivateKeySigner::random` (a fresh keypair from the thread
/// rng), `to_bytes` (the 32 secret scalar bytes) and `address`. For any
/// signer, `from_str` of the canonical hex of its bytes rebuilds the same
/// key, so the canonical hex always parses and the returned address is the
/// address of that hex key. Nothing is assumed about which key comes out.
#[verifier::external_body]
pub fn random_wallet() -> (r: (Vec<u8>, String))
    ensures
        r.0@.len() == 32,
        key_parses(spec_hex_key(r.0@)),
        r.1@ == address_of(spec_hex_key(r.0@)),
{
    let signer = alloy_signer_local::PrivateKeySigner::random();
    let bytes: Vec<u8> = signer.to_bytes().to_vec();
    let address = signer.address().to_string();
    (bytes, address)
}

/// Address determinism: derivation is a function of the key, so any two
/// addresses derived from the same key are equal.
pub proof fn lemma_address_deterministic(k: Seq<char>, a1: Seq<char>, a2: Seq<char>)
    requires
        a1 == address_of(k),
        a2 == address_of(k),
    ensures
        a1 == a2,
{
}

} // verus!
