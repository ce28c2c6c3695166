//! Signing keys and recoverable signatures over secp256k1.
use vstd::prelude::*;
use vstd::string::*;
use vstd::utf8::encode_utf8;
use crate::bytes::{low_address, Address, Word};
use crate::hash::{keccak, keccak256};
use crate::hex_text::{
    decode,
    has_0x,
    hex_decoded,
    hex_encoded,
    HexError,
    lemma_hex_round_trip,
    lemma_prefix_is_optional,
    prefixed_hex,
    strip_0x,
    without_0x,
};
use crate::u256::be_value;

verus! {

/// The order of the secp256k1 group.
pub open spec fn curve_order() -> nat {
    0xFFFF_FFFF_FFFF_FFFF_FFFF_FFFF_FFFF_FFFE_BAAE_DCE6_AF48_A03B_BFD2_5E8C_D036_4141nat
}

/// Whether `bytes` are a secret key: 32 bytes that spell a number from one up
/// to, but not including, the order of the group.
pub open spec fn is_secret(bytes: Seq<u8>) -> bool {
    bytes.len() == 32 && 0 < be_value(bytes) < curve_order()
}

/// A valid secret key.
#[derive(Clone, Copy)]
pub struct SecretKey {
    bytes: Word,
}

impl View for SecretKey {
    type V = Seq<u8>;

    closed spec fn view(&self) -> Seq<u8> {
        self.bytes@
    }
}

/// Why a text is no secret key.
#[derive(Clone, Copy, Debug, PartialEq, Eq)]
pub enum KeyError {
    /// The text is not hexadecimal.
    Hex(HexError),
    /// The bytes are not a secret key.
    InvalidSecretKey,
}

impl KeyError {
    /// The message of the error, which does not repeat any of the text.
    pub fn message(&self) -> (text: &'static str)
        ensures
            text@ == "invalid private key"@,
    {
        "invalid private key"
    }
}

/// The error type of the secp256k1 bindings.
#[verifier::external_type_specification]
#[verifier::external_body]
pub struct ExSecp256k1Error(secp256k1::Error);

/// The public key of a secret key as 65 bytes: a tag, then both coordinates.
pub uninterp spec fn uncompressed_public_key(secret: Seq<u8>) -> Seq<u8>;

/// The recovery id and the compact `r || s` of the deterministic signature of
/// a digest.
pub uninterp spec fn recoverable_signature(digest: Seq<u8>, secret: Seq<u8>) -> (u8, Seq<u8>);

/// The Ethereum address of a secret key: the low 20 bytes of the hash of its
/// public key's coordinates.
pub open spec fn address_of(secret: Seq<u8>) -> Seq<u8> {
    keccak256(uncompressed_public_key(secret).subrange(1, 65)).subrange(12, 32)
}

/// Which secret key a text stands for.
pub open spec fn secret_in(text: Seq<char>) -> Result<Seq<u8>, KeyError> {
    match hex_decoded(encode_utf8(without_0x(text))) {
        Err(error) => Err(KeyError::Hex(error)),
        Ok(bytes) => if is_secret(bytes) {
            Ok(bytes)
        } else {
            Err(KeyError::InvalidSecretKey)
        },
    }
}

/// A secret key reads the same with the prefix and without.
pub proof fn lemma_key_prefix_is_optional(text: Seq<char>)
    requires
        !has_0x(text),
    ensures
        secret_in("0x"@ + text) == secret_in(text),
{
    lemma_prefix_is_optional(text);
}

/// A secret key is read back from its hexadecimal form, with the prefix and
/// without.
pub proof fn lemma_key_round_trip(secret: Seq<u8>)
    requires
        is_secret(secret),
    ensures
        secret_in(prefixed_hex(secret)) == Ok::<Seq<u8>, KeyError>(secret),
        secret_in(hex_encoded(secret)) == Ok::<Seq<u8>, KeyError>(secret),
{
    lemma_hex_round_trip(secret);
}

/// Calls `secp256k1::SecretKey::from_slice`. Trusted: it accepts exactly the
/// 32-byte strings that spell a number between zero and the group order, both
/// excluded, and keeps their bytes.
#[verifier::external_body]
fn secret_from_slice(bytes: &[u8]) -> (result: Result<Word, secp256k1::Error>)
    ensures
        result is Ok <==> is_secret(bytes@),
        result matches Ok(secret) ==> secret@ == bytes@,
{
    secp256k1::SecretKey::from_slice(bytes).map(|key| key.secret_bytes())
}

/// Calls `secp256k1::SecretKey::public_key` and serializes the result
/// uncompressed. Trusted: the 65 bytes are a function of the secret key alone.
#[verifier::external_body]
fn public_key_bytes(secret: &Word) -> (key: [u8; 65])
    requires
        is_secret(secret@),
    ensures
        key@ == uncompressed_public_key(secret@),
{
    let key = secp256k1::SecretKey::from_byte_array(secret).expect("valid secret key");
    key.public_key(secp256k1::SECP256K1).serialize_uncompressed()
}

/// Calls `secp256k1::Secp256k1::sign_ecdsa_recoverable` and serializes the
/// result compactly. Trusted: with nonces by RFC 6979 the signature is a
/// function of digest and key alone; its recovery id is at most three.
#[verifier::external_body]
fn sign_digest_bytes(digest: &Word, secret: &Word) -> (signature: (u8, [u8; 64]))
    requires
        is_secret(secret@),
    ensures
        (signature.0, signature.1@) == recoverable_signature(digest@, secret@),
        signature.0 <= 3,
{
    let key = secp256k1::SecretKey::from_byte_array(secret).expect("valid secret key");
    let message = secp256k1::Message::from_digest(*digest);
    let signature = secp256k1::SECP256K1.sign_ecdsa_recoverable(&message, &key);
    let (recovery_id, compact) = signature.serialize_compact();
    (i32::from(recovery_id) as u8, compact)
}

impl SecretKey {
    #[verifier::type_invariant]
    spec fn valid(self) -> bool {
        is_secret(self.bytes@)
    }
}

/// Parses a `0x`-prefixed or bare hexadecimal secret key.
pub fn parse_secret_key(hex: &str) -> (result: Result<SecretKey, KeyError>)
    ensures
        match (result, secret_in(hex@)) {
            (Ok(key), Ok(expected)) => key@ == expected,
            (Err(error), Err(expected)) => error == expected,
            _ => false,
        },
{
    match decode(strip_0x(hex).as_bytes()) {
        Err(error) => Err(KeyError::Hex(error)),
        Ok(bytes) => match secret_from_slice(&bytes) {
            Ok(secret) => Ok(SecretKey { bytes: secret }),
            Err(_) => Err(KeyError::InvalidSecretKey),
        },
    }
}

/// Derives the Ethereum address controlled by `secret_key`.
pub fn address_from_secret_key(secret_key: &SecretKey) -> (address: Address)
    ensures
        address@ == address_of(secret_key@),
{
    proof {
        use_type_invariant(secret_key);
    }
    let key: [u8; 65] = public_key_bytes(&secret_key.bytes);
    let mut coordinates: Vec<u8> = Vec::with_capacity(64);
    while coordinates.len() < 64
        invariant
            coordinates@.len() <= 64,
            forall|i: int| 0 <= i < coordinates@.len() ==> coordinates@[i] == key@[i + 1],
        decreases 64 - coordinates@.len(),
    {
        let byte: u8 = key[coordinates.len() + 1];
        coordinates.push(byte);
    }
    assert(coordinates@ =~= key@.subrange(1, 65));
    low_address(&keccak(&coordinates))
}

/// Signs `hash` with `signer`, returning the raw recovery id and the 64-byte
/// `r || s` compact signature. The id is nearly always zero or one; two and
/// three stand for an `r` that was reduced by the group order, which the
/// signing library does not rule out.
pub fn sign_recoverable(hash: &Word, signer: &SecretKey) -> (signature: (u8, [u8; 64]))
    ensures
        (signature.0, signature.1@) == recoverable_signature(hash@, signer@),
        signature.0 <= 3,
{
    proof {
        use_type_invariant(signer);
    }
    sign_digest_bytes(hash, &signer.bytes)
}

} // verus!
