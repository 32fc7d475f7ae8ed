//! The external primitives the envelope logic rests on: the canonical
//! encoder, the signing primitive, the content hasher, and the randomness
//! source for identifier generation.
//!
//! Each outside call stands behind a single trusted wrapper whose contract
//! names its result; everything built on top of these names is verified.

use vstd::prelude::*;

use crate::types::{PublicKey, SecretKey, Signature, ADDRESS_SIZE, SIGNATURE_SIZE};
use crate::GUID_SIZE;

verus! {

/// The canonical encoding of a list of byte strings, or `None` where the
/// encoder reports an error: the result of
/// `maidsafe_utilities::serialisation::serialise` on a `Vec<Vec<u8>>`.
pub uninterp spec fn enc_of(parts: Seq<Seq<u8>>) -> Option<Seq<u8>>;

/// The detached signature over a message under a secret key: the result of
/// `sodiumoxide::crypto::sign::sign_detached`.
pub uninterp spec fn sign_of(msg: Seq<u8>, sk: Seq<u8>) -> Seq<u8>;

/// Whether a signature checks out against a message and a public key: the
/// result of `sodiumoxide::crypto::sign::verify_detached`, taken as `false`
/// for bytes that do not even parse as a signature.
pub uninterp spec fn sig_ok(sig: Seq<u8>, msg: Seq<u8>, pk: Seq<u8>) -> bool;

/// Whether a public and a secret key form one of the pairs that
/// `sodiumoxide::crypto::sign::gen_keypair` hands out.
pub uninterp spec fn matching_keys(pk: Seq<u8>, sk: Seq<u8>) -> bool;

/// The digest of a byte string: the result of
/// `sodiumoxide::crypto::hash::sha256::hash`.
pub uninterp spec fn hash_of(msg: Seq<u8>) -> Seq<u8>;

/// The views of a list of byte vectors.
pub open(crate) spec fn views_of(parts: Seq<Vec<u8>>) -> Seq<Seq<u8>> {
    Seq::new(parts.len(), |i: int| parts[i]@)
}

/// The canonical encoder's own error type, opaque to this crate.
#[verifier::external_type_specification]
#[verifier::external_body]
pub struct ExSerialisationError(maidsafe_utilities::serialisation::SerialisationError);

/// Relies on `maidsafe_utilities::serialisation::serialise`: a bincode
/// encoding, so both the bytes produced and whether the call succeeds are
/// functions of the encoded value alone.
#[verifier::external_body]
pub(crate) fn serialise_parts(parts: &Vec<Vec<u8>>) -> (r: Result<
    Vec<u8>,
    maidsafe_utilities::serialisation::SerialisationError,
>)
    ensures
        r matches Ok(v) ==> enc_of(views_of(parts@)) == Some(v@),
        r is Err ==> enc_of(views_of(parts@)) is None,
{
    maidsafe_utilities::serialisation::serialise(parts)
}

/// Relies on `sodiumoxide::crypto::sign::sign_detached`: ed25519 signing is a
/// deterministic function of message and secret key, its signatures are 64
/// bytes, and a signature it produces verifies under the matching public key
/// (`verify_detached` returns `true` for it).
#[verifier::external_body]
pub(crate) fn sign_detached(msg: &Vec<u8>, sk: &SecretKey) -> (r: Vec<u8>)
    requires
        sk.wf(),
    ensures
        r@ == sign_of(msg@, sk@),
        r@.len() == SIGNATURE_SIZE,
        forall|pk: Seq<u8>| matching_keys(pk, sk@) ==> sig_ok(r@, msg@, pk),
{
    let key = sodiumoxide::crypto::sign::SecretKey::from_slice(&sk.bytes).unwrap();
    sodiumoxide::crypto::sign::sign_detached(msg, &key).to_bytes().to_vec()
}

/// Relies on `sodiumoxide::crypto::sign::verify_detached` together with
/// `ed25519::Signature::from_bytes`: the outcome is a function of signature
/// bytes, message and public key alone, and bytes that `from_bytes` rejects
/// (a non-canonical scalar) never verify.
#[verifier::external_body]
pub(crate) fn verify_detached(sig: &Signature, msg: &Vec<u8>, pk: &PublicKey) -> (r: bool)
    requires
        sig.wf(),
        pk.wf(),
    ensures
        r == sig_ok(sig@, msg@, pk@),
{
    let key = sodiumoxide::crypto::sign::PublicKey::from_slice(&pk.bytes).unwrap();
    match sodiumoxide::crypto::sign::ed25519::Signature::from_bytes(&sig.bytes) {
        Ok(s) => sodiumoxide::crypto::sign::verify_detached(&s, msg, &key),
        Err(_) => false,
    }
}

/// Relies on `sodiumoxide::crypto::hash::sha256::hash`: a 32-byte digest that
/// is a function of the input bytes alone.
#[verifier::external_body]
pub(crate) fn hash_bytes(msg: &Vec<u8>) -> (r: Vec<u8>)
    ensures
        r@ == hash_of(msg@),
        r@.len() == ADDRESS_SIZE,
{
    sodiumoxide::crypto::hash::sha256::hash(msg).0.to_vec()
}

/// Relies on `rand::random`: sixteen bytes drawn from the process-wide
/// generator; nothing is assumed of their values.
#[verifier::external_body]
pub(crate) fn random_guid_bytes() -> (r: Vec<u8>)
    ensures
        r@.len() == GUID_SIZE,
{
    rand::random::<[u8; 16]>().to_vec()
}

} // verus!
