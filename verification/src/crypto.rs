//! Encryption boundary.
//!
//! Every frame payload is encrypted with a symmetric key derived from the
//! room name.  The primitive itself is `simple_crypt` (AES-GCM-SIV with an
//! Argon2-derived key); this module declares what the crate relies on about
//! it.  Decryption is a deterministic function of the ciphertext and the
//! key, named here by [`decrypt_of`]; encryption draws a random salt and
//! nonce, so all that holds of its output is that it decrypts back to the
//! input under the same key.

use vstd::prelude::*;

verus! {

/// The error type `simple_crypt` reports its failures with.
#[verifier::external_type_specification]
#[verifier::external_body]
pub struct ExAnyhowError(anyhow::Error);

/// What `simple_crypt::decrypt` yields for the given ciphertext and key:
/// the recovered plaintext, or `None` where decryption fails (wrong key or
/// corrupted bytes).
pub uninterp spec fn decrypt_of(data: Seq<u8>, key: Seq<u8>) -> Option<Seq<u8>>;

/// Relies on `simple_crypt::decrypt`: deserializing the salt, nonce and
/// ciphertext, deriving the key with Argon2 and decrypting with AES-GCM-SIV
/// read nothing but the two arguments, so the outcome is the deterministic
/// function named [`decrypt_of`].
#[verifier::external_body]
pub(crate) fn decrypt_bytes(data: &[u8], key: &[u8]) -> (r: Result<Vec<u8>, anyhow::Error>)
    ensures
        match r {
            Ok(p) => decrypt_of(data@, key@) == Some(p@),
            Err(_) => decrypt_of(data@, key@) is None,
        },
{
    simple_crypt::decrypt(data, key)
}

/// Relies on `simple_crypt::encrypt`: its output bundles the random salt and
/// nonce with the AES-GCM-SIV ciphertext, so `simple_crypt::decrypt` on that
/// output with the same key recovers exactly the input.  Nothing else is
/// assumed of the output: the salt and nonce are random, so two encryptions
/// of the same data may differ.
#[verifier::external_body]
pub(crate) fn encrypt_bytes(data: &[u8], key: &[u8]) -> (r: Result<Vec<u8>, anyhow::Error>)
    ensures
        r matches Ok(c) ==> decrypt_of(c@, key@) == Some(data@),
{
    simple_crypt::encrypt(data, key)
}

} // verus!
