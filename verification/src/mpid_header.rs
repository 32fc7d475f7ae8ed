//! A signed notification value: sender identity, fresh random identifier,
//! bounded metadata, and a detached signature over the canonical encoding of
//! those three fields.

use vstd::prelude::*;

use crate::crypto::{
    enc_of, hash_bytes, hash_of, matching_keys, random_guid_bytes, serialise_parts, sig_ok,
    sign_detached, sign_of, verify_detached, views_of,
};
use crate::types::{copy_bytes, Address, PublicKey, SecretKey, Signature};
use crate::types::{ADDRESS_SIZE, SIGNATURE_SIZE};
use crate::{Error, GUID_SIZE};

verus! {

/// Maximum allowed length for a header's metadata (128 bytes).
pub const MAX_HEADER_METADATA_SIZE: usize = 128;

/// The mathematical content of an [`MpidHeader`]: each field as a byte
/// sequence.
pub struct HeaderView {
    /// The sender's address.
    pub sender: Seq<u8>,
    /// The 16-byte random identifier.
    pub guid: Seq<u8>,
    /// The caller-supplied metadata.
    pub metadata: Seq<u8>,
    /// The detached signature over the other three fields.
    pub signature: Seq<u8>,
}

impl HeaderView {
    /// Field lengths are as the protocol fixes them.
    pub open spec fn wf(self) -> bool {
        &&& self.sender.len() == ADDRESS_SIZE
        &&& self.guid.len() == GUID_SIZE
        &&& self.metadata.len() <= MAX_HEADER_METADATA_SIZE
        &&& self.signature.len() == SIGNATURE_SIZE
    }

    /// The parts whose canonical encoding the signature covers: sender, guid
    /// and metadata, explicitly excluding the signature itself.
    pub open spec fn signable_parts(self) -> Seq<Seq<u8>> {
        seq![self.sender, self.guid, self.metadata]
    }

    /// The parts whose canonical encoding is hashed into the header's name:
    /// the entire header, signature included.
    pub open spec fn name_parts(self) -> Seq<Seq<u8>> {
        seq![self.sender, self.guid, self.metadata, self.signature]
    }

    /// The stored signature checks out against the canonical encoding of the
    /// signable parts under `pk`; an encoder error counts as failure.
    pub open spec fn verifies(self, pk: Seq<u8>) -> bool {
        enc_of(self.signable_parts()) matches Some(e) && sig_ok(self.signature, e, pk)
    }

    /// The header's derived address: the hash of the canonical encoding of
    /// the entire header, or `None` where the encoder reports an error.
    pub open spec fn name(self) -> Option<Seq<u8>> {
        match enc_of(self.name_parts()) {
            Some(e) => Some(hash_of(e)),
            None => None,
        }
    }
}

/// A signed notification which can be relayed and stored on its own, without
/// the message body it announces.
#[derive(Clone, Debug, PartialEq, Eq, Hash)]
pub struct MpidHeader {
    pub(crate) sender: Address,
    pub(crate) guid: Vec<u8>,
    pub(crate) metadata: Vec<u8>,
    pub(crate) signature: Signature,
}

impl View for MpidHeader {
    type V = HeaderView;

    open(crate) spec fn view(&self) -> HeaderView {
        HeaderView {
            sender: self.sender@,
            guid: self.guid@,
            metadata: self.metadata@,
            signature: self.signature@,
        }
    }
}

impl MpidHeader {
    /// Constructor.
    ///
    /// Fails with [`Error::MetadataTooLarge`] exactly when `metadata` exceeds
    /// [`MAX_HEADER_METADATA_SIZE`] bytes, and with [`Error::EncodingFailure`]
    /// where the canonical encoder rejects the value to be signed.  Otherwise
    /// it draws a fresh 16-byte `guid`, signs the canonical encoding of
    /// `(sender, guid, metadata)` with `secret_key`, and returns the fully
    /// populated value, which verifies under the matching public key.
    pub fn new(sender: Address, metadata: Vec<u8>, secret_key: &SecretKey) -> (r: Result<
        MpidHeader,
        Error,
    >)
        requires
            sender.wf(),
            secret_key.wf(),
        ensures
            metadata@.len() > MAX_HEADER_METADATA_SIZE <==> r == Err::<MpidHeader, Error>(
                Error::MetadataTooLarge,
            ),
            r matches Ok(h) ==> {
                &&& h@.wf()
                &&& h@.sender == sender@
                &&& h@.metadata == metadata@
                &&& enc_of(h@.signable_parts()) matches Some(e) && h@.signature == sign_of(
                    e,
                    secret_key@,
                )
                &&& forall|pk: Seq<u8>| matching_keys(pk, secret_key@) ==> h@.verifies(pk)
            },
            r matches Err(e) ==> e == Error::MetadataTooLarge || e == Error::EncodingFailure,
            r == Err::<MpidHeader, Error>(Error::EncodingFailure) ==> metadata@.len()
                <= MAX_HEADER_METADATA_SIZE && (exists|g: Seq<u8>|
                g.len() == GUID_SIZE && enc_of(seq![sender@, g, metadata@]) is None),
    {
        if metadata.len() > MAX_HEADER_METADATA_SIZE {
            return Err(Error::MetadataTooLarge);
        }
        let guid = random_guid_bytes();
        let mut parts: Vec<Vec<u8>> = Vec::new();
        parts.push(copy_bytes(&sender.bytes));
        parts.push(copy_bytes(&guid));
        parts.push(copy_bytes(&metadata));
        proof {
            assert(views_of(parts@) =~~= seq![sender@, guid@, metadata@]);
        }
        match serialise_parts(&parts) {
            Ok(encoded) => {
                let signature = Signature { bytes: sign_detached(&encoded, secret_key) };
                Ok(MpidHeader { sender, guid, metadata, signature })
            },
            Err(_) => {
                proof {
                    assert(guid@.len() == GUID_SIZE && enc_of(
                        seq![sender@, guid@, metadata@],
                    ) is None);
                }
                Err(Error::EncodingFailure)
            },
        }
    }

    /// The name of the sender's account.
    pub fn sender(&self) -> (r: &Address)
        ensures
            r@ == self@.sender,
    {
        &self.sender
    }

    /// The random identifier distinguishing otherwise-identical headers.
    pub fn guid(&self) -> (r: &Vec<u8>)
        ensures
            r@ == self@.guid,
    {
        &self.guid
    }

    /// The caller-supplied metadata.
    pub fn metadata(&self) -> (r: &Vec<u8>)
        ensures
            r@ == self@.metadata,
    {
        &self.metadata
    }

    /// The detached signature over the header's signable content.
    pub fn signature(&self) -> (r: &Signature)
        ensures
            r@ == self@.signature,
    {
        &self.signature
    }

    /// The header's derived address: the hash of the canonical encoding of
    /// the entire header, signature included, so that the name identifies
    /// this concrete signed value.
    pub fn name(&self) -> (r: Result<Address, Error>)
        ensures
            (r is Ok) == (self@.name() is Some),
            r matches Ok(a) ==> Some(a@) == self@.name() && a.wf(),
            r matches Err(e) ==> e == Error::EncodingFailure,
    {
        let mut parts: Vec<Vec<u8>> = Vec::new();
        parts.push(copy_bytes(&self.sender.bytes));
        parts.push(copy_bytes(&self.guid));
        parts.push(copy_bytes(&self.metadata));
        parts.push(copy_bytes(&self.signature.bytes));
        proof {
            assert(views_of(parts@) =~~= self@.name_parts());
        }
        match serialise_parts(&parts) {
            Ok(encoded) => Ok(Address { bytes: hash_bytes(&encoded) }),
            Err(_) => Err(Error::EncodingFailure),
        }
    }

    /// Recomputes the canonical encoding of `(sender, guid, metadata)` and
    /// checks the stored signature against it and `public_key`.  An encoding
    /// failure is treated as verification failure: verification is a
    /// predicate, not a fallible operation.
    pub fn verify(&self, public_key: &PublicKey) -> (r: bool)
        requires
            self@.wf(),
            public_key.wf(),
        ensures
            r == self@.verifies(public_key@),
    {
        let mut parts: Vec<Vec<u8>> = Vec::new();
        parts.push(copy_bytes(&self.sender.bytes));
        parts.push(copy_bytes(&self.guid));
        parts.push(copy_bytes(&self.metadata));
        proof {
            assert(views_of(parts@) =~~= self@.signable_parts());
        }
        match serialise_parts(&parts) {
            Ok(encoded) => verify_detached(&self.signature, &encoded, public_key),
            Err(_) => false,
        }
    }
}

/// The derived name is a pure function of the header's full content: two
/// headers whose fields agree have the same name, so invoking `name` twice on
/// an unchanged header yields identical results.
pub proof fn lemma_name_is_deterministic(a: MpidHeader, b: MpidHeader)
    requires
        a@.sender == b@.sender,
        a@.guid == b@.guid,
        a@.metadata == b@.metadata,
        a@.signature == b@.signature,
    ensures
        a@.name() == b@.name(),
{
    assert(a@.name_parts() =~~= b@.name_parts());
}

} // verus!
