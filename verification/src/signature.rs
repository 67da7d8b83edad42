//! Authentication of an owner's signature under one of three wallet schemes.
//!
//! Every check is pure and fails closed: malformed input is answered with
//! `false`, never with a panic.

use vstd::prelude::*;
use vstd::slice::slice_subrange;
use vstd::string::*;
use crate::hexcode::{hex_decode, hex_decoded, is_hex_text};
use crate::text::{bytes_equal, create_eth_signed_message, eth_signed_message};

verus! {

/// Whether Ed25519 accepts `signature` (64 bytes) for `message` under
/// `public_key` (32 bytes).
pub uninterp spec fn ed25519_accepts(
    signature: Seq<u8>,
    message: Seq<u8>,
    public_key: Seq<u8>,
) -> bool;

/// The SHA-256 digest of `data`.
pub uninterp spec fn sha256_digest(data: Seq<u8>) -> Seq<u8>;

/// The Keccak-256 digest of `data`.
pub uninterp spec fn keccak256_digest(data: Seq<u8>) -> Seq<u8>;

/// The secp256k1 public key (64 bytes, without the leading tag) that signed
/// the 32-byte `hash` with the compact `signature` (r then s, 64 bytes) and
/// recovery id `recovery_id`, if there is one. With `reject_upper_s` a
/// signature whose s lies in the upper half of the group order has none.
pub uninterp spec fn secp256k1_recovered_key(
    hash: Seq<u8>,
    signature: Seq<u8>,
    recovery_id: u8,
    reject_upper_s: bool,
) -> Option<Seq<u8>>;

/// Calls `near_sdk::env::ed25519_verify`. Trusted: its answer depends on the
/// three byte strings alone.
#[verifier::external_body]
fn ed25519_verify(signature: &[u8], message: &[u8], public_key: &[u8]) -> (ok: bool)
    requires
        signature@.len() == 64,
        public_key@.len() == 32,
    ensures
        ok == ed25519_accepts(signature@, message@, public_key@),
{
    let sig: &[u8; 64] = signature.try_into().unwrap();
    let key: &[u8; 32] = public_key.try_into().unwrap();
    near_sdk::env::ed25519_verify(sig, message, key)
}

/// Calls `near_sdk::env::sha256`. Trusted: the digest depends on `data`
/// alone and is 32 bytes long.
#[verifier::external_body]
fn sha256(data: &[u8]) -> (digest: Vec<u8>)
    ensures
        digest@ == sha256_digest(data@),
        digest@.len() == 32,
{
    near_sdk::env::sha256(data)
}

/// Calls `near_sdk::env::keccak256`. Trusted: the digest depends on `data`
/// alone and is 32 bytes long.
#[verifier::external_body]
fn keccak256(data: &[u8]) -> (digest: Vec<u8>)
    ensures
        digest@ == keccak256_digest(data@),
        digest@.len() == 32,
{
    near_sdk::env::keccak256(data)
}

/// Calls `near_sdk::env::ecrecover`. Trusted: the recovered key, or its
/// absence, depends on the arguments alone, and a recovered key is 64 bytes
/// long. The call aborts on a hash that is not 32 bytes, a signature that is
/// not 64 bytes, or a recovery id above 3: those are left out.
#[verifier::external_body]
fn ecrecover(hash: &[u8], signature: &[u8], recovery_id: u8, reject_upper_s: bool) -> (key: Option<
    Vec<u8>,
>)
    requires
        hash@.len() == 32,
        signature@.len() == 64,
        recovery_id < 4,
    ensures
        match key {
            Some(k) => secp256k1_recovered_key(hash@, signature@, recovery_id, reject_upper_s)
                == Some(k@) && k@.len() == 64,
            None => secp256k1_recovered_key(hash@, signature@, recovery_id, reject_upper_s)
                is None,
        },
{
    match near_sdk::env::ecrecover(hash, signature, recovery_id, reject_upper_s) {
        Some(k) => Some(k.to_vec()),
        None => None,
    }
}

/// An Ed25519 signature over `message`: 64 bytes that Ed25519 accepts under
/// a 32-byte key.
pub open spec fn ed25519_signature_valid(
    public_key: Seq<u8>,
    message: Seq<u8>,
    signature: Seq<u8>,
) -> bool {
    &&& signature.len() == 64
    &&& public_key.len() == 32
    &&& ed25519_accepts(signature, message, public_key)
}

/// A NEAR-style signature: Ed25519 over the SHA-256 digest of the message.
pub open spec fn near_signature_valid(
    public_key: Seq<u8>,
    message: Seq<u8>,
    signature: Seq<u8>,
) -> bool {
    ed25519_signature_valid(public_key, sha256_digest(message), signature)
}

/// A Solana-style signature: Ed25519 over the message as it stands.
pub open spec fn solana_signature_valid(
    public_key: Seq<u8>,
    message: Seq<u8>,
    signature: Seq<u8>,
) -> bool {
    ed25519_signature_valid(public_key, message, signature)
}

/// The 20 bytes that address text stands for: 40 hexadecimal digits after an
/// optional `0x`. `text` is the address in UTF-8.
pub open spec fn evm_address_bytes(text: Seq<u8>) -> Option<Seq<u8>> {
    let digits = if text.len() >= 2 && text[0] == 0x30 && text[1] == 0x78 {
        text.subrange(2, text.len() as int)
    } else {
        text
    };
    if digits.len() == 40 && is_hex_text(digits) {
        Some(hex_decoded(digits))
    } else {
        None
    }
}

/// The recovery id that the last byte of a signature stands for: the legacy
/// encoding counts from 27.
pub open spec fn normalized_recovery_id(v: u8) -> u8 {
    if v >= 27 {
        (v - 27) as u8
    } else {
        v
    }
}

/// Whether the digest of a recovered key ends in the 20 bytes of `address`.
pub open spec fn key_digest_matches(key_digest: Seq<u8>, address: Seq<u8>) -> bool {
    key_digest.len() == 32 && key_digest.subrange(12, 32) == address
}

/// An EVM-style signature: 65 bytes, r and s followed by the recovery byte,
/// over the Keccak-256 digest of the personal-message envelope; the key it
/// recovers must hash to the address.
pub open spec fn evm_signature_valid(address: Seq<u8>, message: Seq<u8>, signature: Seq<u8>) -> bool {
    &&& signature.len() == 65
    &&& evm_address_bytes(address) is Some
    &&& normalized_recovery_id(signature[64]) < 4
    &&& match secp256k1_recovered_key(
        keccak256_digest(eth_signed_message(message)),
        signature.subrange(0, 64),
        normalized_recovery_id(signature[64]),
        true,
    ) {
        Some(key) => key_digest_matches(keccak256_digest(key), evm_address_bytes(address).unwrap()),
        None => false,
    }
}

/// Checks an Ed25519 signature; `false` on any length mismatch.
pub fn verify_ed25519_signature(public_key: &[u8], message: &[u8], signature: &[u8]) -> (ok: bool)
    ensures
        ok == ed25519_signature_valid(public_key@, message@, signature@),
{
    if signature.len() != 64 || public_key.len() != 32 {
        return false;
    }
    ed25519_verify(signature, message, public_key)
}

/// Checks a NEAR-style signature, made over the SHA-256 digest of `message`.
pub fn verify_near_signature(public_key: &[u8], message: &[u8], signature: &[u8]) -> (ok: bool)
    ensures
        ok == near_signature_valid(public_key@, message@, signature@),
{
    let hash = sha256(message);
    verify_ed25519_signature(public_key, hash.as_slice(), signature)
}

/// Checks a Solana-style signature, made over the raw `message`.
pub fn verify_solana_signature(public_key: &[u8], message: &[u8], signature: &[u8]) -> (ok: bool)
    ensures
        ok == solana_signature_valid(public_key@, message@, signature@),
{
    verify_ed25519_signature(public_key, message, signature)
}

/// Reads an address: 40 hexadecimal digits, with or without a leading `0x`.
pub fn parse_evm_address(address: &str) -> (parsed: Option<[u8; 20]>)
    ensures
        match parsed {
            Some(bytes) => evm_address_bytes(address.spec_bytes()) == Some(bytes@),
            None => evm_address_bytes(address.spec_bytes()) is None,
        },
{
    let text = address.as_bytes();
    let digits = if text.len() >= 2 && text[0] == 0x30 && text[1] == 0x78 {
        slice_subrange(text, 2, text.len())
    } else {
        text
    };
    if digits.len() != 40 {
        return None;
    }
    let bytes = match hex_decode(digits) {
        Some(b) => b,
        None => {
            return None;
        },
    };
    let mut result = [0u8; 20];
    let mut i: usize = 0;
    while i < 20
        invariant
            i <= 20,
            bytes@.len() == 20,
            forall|j: int| 0 <= j < i ==> result@[j] == bytes@[j],
        decreases 20 - i,
    {
        result[i] = bytes[i];
        i += 1;
    }
    assert(result@ =~= bytes@);
    Some(result)
}

/// Whether the digest of a recovered key ends in `address`.
pub fn recovered_address_matches(key_digest: &[u8], address: &[u8; 20]) -> (ok: bool)
    ensures
        ok == key_digest_matches(key_digest@, address@),
{
    if key_digest.len() != 32 {
        return false;
    }
    bytes_equal(slice_subrange(key_digest, 12, 32), address.as_slice())
}

/// Checks an EVM-style signature against the address it claims.
pub fn verify_evm_signature(address: &str, message: &[u8], signature: &[u8]) -> (ok: bool)
    ensures
        ok == evm_signature_valid(address.spec_bytes(), message@, signature@),
{
    if signature.len() != 65 {
        return false;
    }
    let expected_address = match parse_evm_address(address) {
        Some(addr) => addr,
        None => {
            return false;
        },
    };
    let prefixed_message = create_eth_signed_message(message);
    let message_hash = keccak256(prefixed_message.as_slice());
    let v = signature[64];
    let recovery_id = if v >= 27 {
        v - 27
    } else {
        v
    };
    if recovery_id >= 4 {
        return false;
    }
    let recovered = match ecrecover(
        message_hash.as_slice(),
        slice_subrange(signature, 0, 64),
        recovery_id,
        true,
    ) {
        Some(key) => key,
        None => {
            return false;
        },
    };
    let key_digest = keccak256(recovered.as_slice());
    recovered_address_matches(key_digest.as_slice(), &expected_address)
}

} // verus!
