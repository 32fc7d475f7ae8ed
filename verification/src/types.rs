//! Fixed-length byte-blob value types: network addresses, signing keys and
//! signatures.
//!
//! The protocol treats all four as opaque blobs of a fixed size; nothing in
//! this crate inspects their internals beyond equality and length.

use vstd::prelude::*;

verus! {

/// Length in bytes of an [`Address`], the network-wide identity space.
pub const ADDRESS_SIZE: usize = 32;

/// Length in bytes of a [`PublicKey`].
pub const PUBLIC_KEY_SIZE: usize = 32;

/// Length in bytes of a [`SecretKey`].
pub const SECRET_KEY_SIZE: usize = 64;

/// Length in bytes of a [`Signature`].
pub const SIGNATURE_SIZE: usize = 64;

/// A fixed-length network identity/location identifier.
#[derive(Clone, Debug, PartialEq, Eq, Hash)]
pub struct Address {
    pub(crate) bytes: Vec<u8>,
}

impl View for Address {
    type V = Seq<u8>;

    open(crate) spec fn view(&self) -> Seq<u8> {
        self.bytes@
    }
}

impl Address {
    /// An address holds exactly [`ADDRESS_SIZE`] bytes.
    pub open spec fn wf(&self) -> bool {
        self@.len() == ADDRESS_SIZE
    }

    /// Builds an address from its raw bytes; fails on any other length.
    pub fn from_bytes(bytes: Vec<u8>) -> (r: Option<Address>)
        ensures
            (r is Some) == (bytes@.len() == ADDRESS_SIZE),
            r matches Some(a) ==> a@ == bytes@ && a.wf(),
    {
        if bytes.len() == ADDRESS_SIZE {
            Some(Address { bytes })
        } else {
            None
        }
    }

    /// The raw bytes of the address.
    pub fn as_bytes(&self) -> (r: &Vec<u8>)
        ensures
            r@ == self@,
    {
        &self.bytes
    }
}

/// A public signing key, as produced by the external signing primitive.
#[derive(Clone, Debug, PartialEq, Eq, Hash)]
pub struct PublicKey {
    pub(crate) bytes: Vec<u8>,
}

impl View for PublicKey {
    type V = Seq<u8>;

    open(crate) spec fn view(&self) -> Seq<u8> {
        self.bytes@
    }
}

impl PublicKey {
    /// A public key holds exactly [`PUBLIC_KEY_SIZE`] bytes.
    pub open spec fn wf(&self) -> bool {
        self@.len() == PUBLIC_KEY_SIZE
    }

    /// Builds a public key from its raw bytes; fails on any other length.
    pub fn from_bytes(bytes: Vec<u8>) -> (r: Option<PublicKey>)
        ensures
            (r is Some) == (bytes@.len() == PUBLIC_KEY_SIZE),
            r matches Some(k) ==> k@ == bytes@ && k.wf(),
    {
        if bytes.len() == PUBLIC_KEY_SIZE {
            Some(PublicKey { bytes })
        } else {
            None
        }
    }

    /// The raw bytes of the key.
    pub fn as_bytes(&self) -> (r: &Vec<u8>)
        ensures
            r@ == self@,
    {
        &self.bytes
    }
}

/// A secret signing key, as produced by the external signing primitive.
#[derive(Clone, Debug, PartialEq, Eq, Hash)]
pub struct SecretKey {
    pub(crate) bytes: Vec<u8>,
}

impl View for SecretKey {
    type V = Seq<u8>;

    open(crate) spec fn view(&self) -> Seq<u8> {
        self.bytes@
    }
}

impl SecretKey {
    /// A secret key holds exactly [`SECRET_KEY_SIZE`] bytes.
    pub open spec fn wf(&self) -> bool {
        self@.len() == SECRET_KEY_SIZE
    }

    /// Builds a secret key from its raw bytes; fails on any other length.
    pub fn from_bytes(bytes: Vec<u8>) -> (r: Option<SecretKey>)
        ensures
            (r is Some) == (bytes@.len() == SECRET_KEY_SIZE),
            r matches Some(k) ==> k@ == bytes@ && k.wf(),
    {
        if bytes.len() == SECRET_KEY_SIZE {
            Some(SecretKey { bytes })
        } else {
            None
        }
    }

    /// The raw bytes of the key.
    pub fn as_bytes(&self) -> (r: &Vec<u8>)
        ensures
            r@ == self@,
    {
        &self.bytes
    }
}

/// A detached digital signature, as produced by the external signing
/// primitive.
#[derive(Clone, Debug, PartialEq, Eq, Hash)]
pub struct Signature {
    pub(crate) bytes: Vec<u8>,
}

impl View for Signature {
    type V = Seq<u8>;

    open(crate) spec fn view(&self) -> Seq<u8> {
        self.bytes@
    }
}

impl Signature {
    /// A signature holds exactly [`SIGNATURE_SIZE`] bytes.
    pub open spec fn wf(&self) -> bool {
        self@.len() == SIGNATURE_SIZE
    }

    /// Builds a signature from its raw bytes; fails on any other length.
    pub fn from_bytes(bytes: Vec<u8>) -> (r: Option<Signature>)
        ensures
            (r is Some) == (bytes@.len() == SIGNATURE_SIZE),
            r matches Some(s) ==> s@ == bytes@ && s.wf(),
    {
        if bytes.len() == SIGNATURE_SIZE {
            Some(Signature { bytes })
        } else {
            None
        }
    }

    /// The raw bytes of the signature.
    pub fn as_bytes(&self) -> (r: &Vec<u8>)
        ensures
            r@ == self@,
    {
        &self.bytes
    }
}

/// Copies a byte vector element by element.
pub(crate) fn copy_bytes(src: &Vec<u8>) -> (r: Vec<u8>)
    ensures
        r@ == src@,
{
    let mut out: Vec<u8> = Vec::new();
    let mut i: usize = 0;
    while i < src.len()
        invariant
            i <= src.len(),
            out@ == src@.subrange(0, i as int),
        decreases src.len() - i,
    {
        out.push(src[i]);
        i = i + 1;
        proof {
            assert(out@ =~= src@.subrange(0, i as int));
        }
    }
    proof {
        assert(out@ =~= src@);
    }
    out
}

} // verus!
