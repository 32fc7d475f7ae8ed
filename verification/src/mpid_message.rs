//! A signed full message: an embedded notification header together with the
//! recipient, a bounded body, and a second detached signature over the
//! canonical encoding of `(recipient, body)`.

use vstd::prelude::*;

use crate::crypto::{
    enc_of, matching_keys, serialise_parts, sig_ok, sign_detached, sign_of, verify_detached,
    views_of,
};
use crate::mpid_header::{HeaderView, MpidHeader};
use crate::types::{copy_bytes, Address, PublicKey, SecretKey, Signature};
use crate::types::{ADDRESS_SIZE, SIGNATURE_SIZE};
use crate::{Error, MAX_HEADER_METADATA_SIZE};

verus! {

/// Maximum allowed length for a message's body (101,760 bytes).
pub const MAX_BODY_SIZE: usize = 102400 - 512 - MAX_HEADER_METADATA_SIZE;

/// The mathematical content of an [`MpidMessage`].
pub struct MessageView {
    /// The embedded notification header.
    pub header: HeaderView,
    /// The intended receiver's address.
    pub recipient: Seq<u8>,
    /// The user-supplied main portion of the message.
    pub body: Seq<u8>,
    /// The detached signature over recipient and body.
    pub signature: Seq<u8>,
}

impl MessageView {
    /// Field lengths are as the protocol fixes them.
    pub open spec fn wf(self) -> bool {
        &&& self.header.wf()
        &&& self.recipient.len() == ADDRESS_SIZE
        &&& self.body.len() <= MAX_BODY_SIZE
        &&& self.signature.len() == SIGNATURE_SIZE
    }

    /// The parts whose canonical encoding the message's own signature covers:
    /// recipient and body only; the header is verified separately.
    pub open spec fn detail_parts(self) -> Seq<Seq<u8>> {
        seq![self.recipient, self.body]
    }

    /// The message's own signature checks out against the canonical encoding
    /// of `(recipient, body)` under `pk`; an encoder error counts as failure.
    pub open spec fn detail_sig_ok(self, pk: Seq<u8>) -> bool {
        enc_of(self.detail_parts()) matches Some(e) && sig_ok(self.signature, e, pk)
    }

    /// A message is valid exactly when its own signature and the embedded
    /// header's signature both verify under the same public key.
    pub open spec fn verifies(self, pk: Seq<u8>) -> bool {
        self.detail_sig_ok(pk) && self.header.verifies(pk)
    }
}

/// A full message including header and body which can be sent to or retrieved
/// from the network.
#[derive(Clone, Debug, PartialEq, Eq, Hash)]
pub struct MpidMessage {
    pub(crate) header: MpidHeader,
    pub(crate) recipient: Address,
    pub(crate) body: Vec<u8>,
    pub(crate) signature: Signature,
}

impl View for MpidMessage {
    type V = MessageView;

    open(crate) spec fn view(&self) -> MessageView {
        MessageView {
            header: self.header@,
            recipient: self.recipient@,
            body: self.body@,
            signature: self.signature@,
        }
    }
}

impl MpidMessage {
    /// Constructor.
    ///
    /// `header` must already be validly constructed by the caller; it is
    /// embedded unchanged and not re-verified here.  Fails with
    /// [`Error::BodyTooLarge`] exactly when `body` exceeds [`MAX_BODY_SIZE`]
    /// bytes, and with [`Error::EncodingFailure`] exactly where the canonical
    /// encoder rejects `(recipient, body)`.  Otherwise it signs that encoding
    /// with `secret_key` and returns the populated value.
    pub fn new(
        header: MpidHeader,
        recipient: Address,
        body: Vec<u8>,
        secret_key: &SecretKey,
    ) -> (r: Result<MpidMessage, Error>)
        requires
            header@.wf(),
            recipient.wf(),
            secret_key.wf(),
        ensures
            body@.len() > MAX_BODY_SIZE <==> r == Err::<MpidMessage, Error>(Error::BodyTooLarge),
            (r is Ok) == (body@.len() <= MAX_BODY_SIZE && enc_of(
                seq![recipient@, body@],
            ) is Some),
            r matches Ok(m) ==> {
                &&& m@.wf()
                &&& m@.header == header@
                &&& m@.recipient == recipient@
                &&& m@.body == body@
                &&& enc_of(m@.detail_parts()) matches Some(e) && m@.signature == sign_of(
                    e,
                    secret_key@,
                )
                &&& forall|pk: Seq<u8>| matching_keys(pk, secret_key@) ==> m@.detail_sig_ok(pk)
                &&& forall|pk: Seq<u8>|
                    matching_keys(pk, secret_key@) && header@.verifies(pk) ==> m@.verifies(pk)
            },
            r matches Err(e) ==> e == Error::BodyTooLarge || e == Error::EncodingFailure,
            r == Err::<MpidMessage, Error>(Error::EncodingFailure) ==> body@.len() <= MAX_BODY_SIZE
                && enc_of(seq![recipient@, body@]) is None,
    {
        if body.len() > MAX_BODY_SIZE {
            return Err(Error::BodyTooLarge);
        }
        let mut parts: Vec<Vec<u8>> = Vec::new();
        parts.push(copy_bytes(&recipient.bytes));
        parts.push(copy_bytes(&body));
        proof {
            assert(views_of(parts@) =~~= seq![recipient@, body@]);
        }
        match serialise_parts(&parts) {
            Ok(encoded) => {
                let signature = Signature { bytes: sign_detached(&encoded, secret_key) };
                Ok(MpidMessage { header, recipient, body, signature })
            },
            Err(_) => Err(Error::EncodingFailure),
        }
    }

    /// The embedded header, exactly as supplied to the constructor.
    pub fn header(&self) -> (r: &MpidHeader)
        ensures
            r@ == self@.header,
    {
        &self.header
    }

    /// The name of the intended receiver of the message.
    pub fn recipient(&self) -> (r: &Address)
        ensures
            r@ == self@.recipient,
    {
        &self.recipient
    }

    /// Arbitrary, user-supplied data representing the main portion of the
    /// message.
    pub fn body(&self) -> (r: &Vec<u8>)
        ensures
            r@ == self@.body,
    {
        &self.body
    }

    /// The name of the message, equivalent to the embedded header's name: the
    /// address identifies the notification, not the payload.
    pub fn name(&self) -> (r: Result<Address, Error>)
        ensures
            (r is Ok) == (self@.header.name() is Some),
            r matches Ok(a) ==> Some(a@) == self@.header.name() && a.wf(),
            r matches Err(e) ==> e == Error::EncodingFailure,
    {
        self.header.name()
    }

    /// Validates the message signature and the embedded header's signature
    /// against the provided `public_key`; both must hold under the same key.
    pub fn verify(&self, public_key: &PublicKey) -> (r: bool)
        requires
            self@.wf(),
            public_key.wf(),
        ensures
            r == self@.verifies(public_key@),
    {
        let mut parts: Vec<Vec<u8>> = Vec::new();
        parts.push(copy_bytes(&self.recipient.bytes));
        parts.push(copy_bytes(&self.body));
        proof {
            assert(views_of(parts@) =~~= self@.detail_parts());
        }
        match serialise_parts(&parts) {
            Ok(encoded) => {
                if verify_detached(&self.signature, &encoded, public_key) {
                    self.header.verify(public_key)
                } else {
                    false
                }
            },
            Err(_) => false,
        }
    }
}

/// Message validity demands both layers under one key: if either the
/// message's own signature or the embedded header's signature fails to
/// verify, the message does not verify.
pub proof fn lemma_verify_requires_both_layers(m: MpidMessage, pk: Seq<u8>)
    ensures
        m@.verifies(pk) == (m@.detail_sig_ok(pk) && m@.header.verifies(pk)),
        !m@.detail_sig_ok(pk) ==> !m@.verifies(pk),
        !m@.header.verifies(pk) ==> !m@.verifies(pk),
{
}

} // verus!
