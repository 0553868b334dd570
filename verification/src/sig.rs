use vstd::prelude::*;

verus! {

/// Whether `sig` holds a valid ed25519 signature by the key whose bytes
/// are `pk` over the UTF-8 bytes of `msg`. Ed25519 verification is a pure
/// function of the three byte strings, so the verdict carries a name that
/// every contract can share; nothing else is assumed about it.
pub uninterp spec fn sig_valid(msg: Seq<char>, sig: Seq<u8>, pk: Seq<u8>) -> bool;

/// Relies on `ed25519_dalek::VerifyingKey::verify` (through the
/// `Verifier` trait): the verdict depends on the message, signature and
/// key bytes alone. A signature that is not 64 bytes, or a key that is
/// not 32 bytes or does not decompress to a curve point, never verifies.
#[verifier::external_body]
pub fn verify_signature(message: &str, signature: &Vec<u8>, public_key: &Vec<u8>) -> (r: bool)
    ensures
        r == sig_valid(message@, signature@, public_key@),
{
    let sig_bytes: [u8; 64] = match signature.as_slice().try_into() {
        Ok(b) => b,
        Err(_) => return false,
    };
    let pk_bytes: [u8; 32] = match public_key.as_slice().try_into() {
        Ok(b) => b,
        Err(_) => return false,
    };
    let sig = ed25519_dalek::Signature::from_bytes(&sig_bytes);
    match ed25519_dalek::VerifyingKey::from_bytes(&pk_bytes) {
        Ok(vk) => ed25519_dalek::Verifier::verify(&vk, message.as_bytes(), &sig).is_ok(),
        Err(_) => false,
    }
}

} // verus!
