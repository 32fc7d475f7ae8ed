//! Message envelope and authentication types for a store-and-forward mailbox
//! protocol: signed notification headers, signed full messages, and the
//! operation sum type that carries them between clients and manager nodes.

use vstd::prelude::*;

mod crypto;
mod error;
mod mpid_header;
mod mpid_message;
mod mpid_message_wrapper;
mod types;
pub mod wire;

pub use crypto::{enc_of, hash_of, matching_keys, sig_ok, sign_of};
pub use mpid_header::{lemma_name_is_deterministic, HeaderView, MpidHeader, MAX_HEADER_METADATA_SIZE};
pub use mpid_message::{lemma_verify_requires_both_layers, MessageView, MpidMessage, MAX_BODY_SIZE};
pub use mpid_message_wrapper::{MpidMessageWrapper, WrapperView};

pub use error::Error;
pub use types::{Address, PublicKey, SecretKey, Signature};
pub use types::{ADDRESS_SIZE, PUBLIC_KEY_SIZE, SECRET_KEY_SIZE, SIGNATURE_SIZE};

verus! {

/// Length of the GUID (unique ID) of a message (16 bytes).
pub const GUID_SIZE: usize = 16;

/// Maximum allowed inbox size for an account (128 MiB).
pub const MAX_INBOX_SIZE: usize = 134217728;

/// Maximum allowed outbox size for an account (128 MiB).
pub const MAX_OUTBOX_SIZE: usize = 134217728;

/// Relies on `String::push`: appends the character to the string.
pub assume_specification[ String::push ](s: &mut String, ch: char)
    ensures
        final(s)@ == old(s)@.push(ch),
;

/// The hexadecimal digit for a value below sixteen, in lower case.
pub open spec fn hex_digit(n: u8) -> char
    recommends
        n < 16,
{
    if n < 10 {
        (48 + n) as char
    } else {
        (87 + n) as char
    }
}

/// The two hexadecimal digits of one byte.
pub open spec fn hex_pair(b: u8) -> Seq<char> {
    seq![hex_digit(b / 16), hex_digit(b % 16)]
}

/// The hexadecimal digits of a byte string, two per byte.
pub open spec fn hex_str(s: Seq<u8>) -> Seq<char>
    decreases s.len(),
{
    if s.len() == 0 {
        Seq::empty()
    } else {
        hex_pair(s[0]) + hex_str(s.drop_first())
    }
}

/// The elided hexadecimal form of a byte string of more than six bytes: the
/// first three and last three bytes around a two-dot ellipsis.
pub open spec fn hex_str_elided(s: Seq<u8>) -> Seq<char>
    recommends
        s.len() > 6,
{
    hex_pair(s[0]) + hex_pair(s[1]) + hex_pair(s[2]) + seq!['.', '.'] + hex_pair(
        s[s.len() - 3],
    ) + hex_pair(s[s.len() - 2]) + hex_pair(s[s.len() - 1])
}

/// Appending a byte appends its two digits.
proof fn lemma_hex_str_push(p: Seq<u8>, b: u8)
    ensures
        hex_str(p.push(b)) == hex_str(p) + hex_pair(b),
    decreases p.len(),
{
    let q = p.push(b);
    if p.len() == 0 {
        assert(q[0] == b);
        assert(q.drop_first() =~= Seq::<u8>::empty());
        assert(hex_str(q) == hex_pair(b) + hex_str(Seq::<u8>::empty()));
        assert(hex_str(q) =~= hex_str(p) + hex_pair(b));
    } else {
        lemma_hex_str_push(p.drop_first(), b);
        assert(q[0] == p[0]);
        assert(q.drop_first() =~= p.drop_first().push(b));
        assert(hex_str(q) == hex_pair(p[0]) + hex_str(p.drop_first().push(b)));
        assert(hex_str(q) =~= hex_str(p) + hex_pair(b));
    }
}

/// The character for a hexadecimal digit, in lower case.
fn hex_char(n: u8) -> (c: char)
    requires
        n < 16,
    ensures
        c == hex_digit(n),
{
    if n < 10 {
        (48 + n) as char
    } else {
        (87 + n) as char
    }
}

/// Appends the two hexadecimal digits of one byte.
fn push_hex_byte(out: &mut String, b: u8)
    ensures
        final(out)@ == old(out)@ + hex_pair(b),
{
    out.push(hex_char(b / 16));
    out.push(hex_char(b % 16));
    proof {
        assert(out@ =~= old(out)@ + hex_pair(b));
    }
}

/// Formats a byte string as a hexadecimal number, ellipsising all but the
/// first and last three bytes.
///
/// For three bytes with values 1, 2, 3, the output will be "010203".  For
/// more than six bytes, e.g. for fifteen bytes with values 1, 2, ..., 15,
/// the output will be "010203..0d0e0f".
pub fn format_binary_array(input: &[u8]) -> (r: String)
    ensures
        input@.len() <= 6 ==> r@ == hex_str(input@),
        input@.len() > 6 ==> r@ == hex_str_elided(input@),
{
    let mut out = String::new();
    if input.len() <= 6 {
        let mut i: usize = 0;
        while i < input.len()
            invariant
                i <= input@.len(),
                out@ == hex_str(input@.subrange(0, i as int)),
            decreases input@.len() - i,
        {
            push_hex_byte(&mut out, input[i]);
            i = i + 1;
            proof {
                lemma_hex_str_push(input@.subrange(0, i as int - 1), input@[i as int - 1]);
                assert(input@.subrange(0, i as int - 1).push(input@[i as int - 1])
                    =~= input@.subrange(0, i as int));
            }
        }
        proof {
            assert(input@.subrange(0, input@.len() as int) =~= input@);
        }
        return out;
    }
    push_hex_byte(&mut out, input[0]);
    push_hex_byte(&mut out, input[1]);
    push_hex_byte(&mut out, input[2]);
    out.push('.');
    out.push('.');
    push_hex_byte(&mut out, input[input.len() - 3]);
    push_hex_byte(&mut out, input[input.len() - 2]);
    push_hex_byte(&mut out, input[input.len() - 1]);
    proof {
        assert(out@ =~= hex_str_elided(input@));
    }
    out
}

} // verus!
