//! The wire form of [`MpidMessageWrapper`]: a tag byte followed by the
//! variant's payload, with fixed-length fields laid out raw and
//! variable-length fields and lists prefixed by a 32-bit little-endian
//! length.
//!
//! Encoding and decoding are verified against the same specification
//! functions, and decoding an encoded wrapper is proved to reproduce the
//! encoded value exactly; unknown tags and trailing bytes are rejected.

use vstd::prelude::*;

use crate::mpid_header::{HeaderView, MpidHeader};
use crate::mpid_message::{MessageView, MpidMessage};
use crate::mpid_message_wrapper::{address_views, header_views, MpidMessageWrapper, WrapperView};
use crate::types::{Address, Signature};
use crate::types::{ADDRESS_SIZE, SIGNATURE_SIZE};
use crate::{GUID_SIZE, MAX_BODY_SIZE, MAX_HEADER_METADATA_SIZE};

verus! {

/// Tag byte announcing an `Online` wrapper.
pub const TAG_ONLINE: u8 = 0;

/// Tag byte announcing a `PutMessage` wrapper.
pub const TAG_PUT_MESSAGE: u8 = 1;

/// Tag byte announcing a `PutHeader` wrapper.
pub const TAG_PUT_HEADER: u8 = 2;

/// Tag byte announcing a `GetMessage` wrapper.
pub const TAG_GET_MESSAGE: u8 = 3;

/// Tag byte announcing an `OutboxHas` wrapper.
pub const TAG_OUTBOX_HAS: u8 = 4;

/// Tag byte announcing an `OutboxHasResponse` wrapper.
pub const TAG_OUTBOX_HAS_RESPONSE: u8 = 5;

/// Tag byte announcing a `GetOutboxHeaders` wrapper.
pub const TAG_GET_OUTBOX_HEADERS: u8 = 6;

/// Tag byte announcing a `GetOutboxHeadersResponse` wrapper.
pub const TAG_GET_OUTBOX_HEADERS_RESPONSE: u8 = 7;

/// A 32-bit value as four little-endian bytes.
pub open spec fn u32_le(n: u32) -> Seq<u8> {
    seq![
        (n % 256) as u8,
        ((n / 256) % 256) as u8,
        ((n / 65536) % 256) as u8,
        ((n / 16777216) % 256) as u8,
    ]
}

/// The 32-bit value four little-endian bytes stand for.
pub open spec fn u32_from(b: Seq<u8>) -> u32
    recommends
        b.len() == 4,
{
    (b[0] + b[1] * 256 + b[2] * 65536 + b[3] * 16777216) as u32
}

/// Reading back the four little-endian bytes of a value gives the value.
pub proof fn lemma_u32_round_trip(n: u32)
    ensures
        u32_from(u32_le(n)) == n,
{
    assert(n == (n % 256) + ((n / 256) % 256) * 256 + ((n / 65536) % 256) * 65536 + ((n
        / 16777216) % 256) * 16777216) by (bit_vector);
}

/// A variable-length byte string on the wire: its length, then its bytes.
pub open spec fn blob_bytes(b: Seq<u8>) -> Seq<u8>
    recommends
        b.len() < 4294967296,
{
    u32_le(b.len() as u32) + b
}

/// Takes `n` raw bytes starting at `i`, with the position after them.
pub open spec fn parse_fixed(s: Seq<u8>, i: int, n: int) -> Option<(Seq<u8>, int)> {
    if 0 <= i && 0 <= n && i + n <= s.len() {
        Some((s.subrange(i, i + n), i + n))
    } else {
        None
    }
}

/// Reads a 32-bit little-endian value starting at `i`.
pub open spec fn parse_u32(s: Seq<u8>, i: int) -> Option<(u32, int)> {
    match parse_fixed(s, i, 4) {
        Some((b, j)) => Some((u32_from(b), j)),
        None => None,
    }
}

/// Reads a length-prefixed byte string starting at `i`, rejecting any length
/// over `max`.
pub open spec fn parse_blob(s: Seq<u8>, i: int, max: int) -> Option<(Seq<u8>, int)> {
    match parse_u32(s, i) {
        Some((n, j)) => if n <= max {
            parse_fixed(s, j, n as int)
        } else {
            None
        },
        None => None,
    }
}

/// A subrange of a matched region equals the same subrange of the pattern.
proof fn lemma_subrange_of_matching(s: Seq<u8>, i: int, b: Seq<u8>, lo: int, hi: int)
    requires
        0 <= i,
        i + b.len() <= s.len(),
        s.subrange(i, i + b.len() as int) == b,
        0 <= lo <= hi <= b.len(),
    ensures
        s.subrange(i + lo, i + hi) == b.subrange(lo, hi),
{
    assert(s.subrange(i + lo, i + hi) =~= b.subrange(lo, hi)) by {
        assert forall|k: int| 0 <= k < hi - lo implies s.subrange(i + lo, i + hi)[k] == b.subrange(
            lo,
            hi,
        )[k] by {
            assert(s.subrange(i, i + b.len() as int)[lo + k] == b[lo + k]);
        }
    }
}

/// Appends the bytes of `data` to `out`.
fn push_bytes(out: &mut Vec<u8>, data: &Vec<u8>)
    ensures
        final(out)@ == old(out)@ + data@,
{
    let ghost base = out@;
    let mut k: usize = 0;
    while k < data.len()
        invariant
            k <= data.len(),
            out@ == base + data@.subrange(0, k as int),
        decreases data.len() - k,
    {
        out.push(data[k]);
        k = k + 1;
        proof {
            assert(out@ =~= base + data@.subrange(0, k as int));
        }
    }
    proof {
        assert(base + data@.subrange(0, data@.len() as int) =~= base + data@);
    }
}

/// Appends a 32-bit value in little-endian order to `out`.
fn push_u32(out: &mut Vec<u8>, n: u32)
    ensures
        final(out)@ == old(out)@ + u32_le(n),
{
    out.push((n % 256) as u8);
    out.push(((n / 256) % 256) as u8);
    out.push(((n / 65536) % 256) as u8);
    out.push(((n / 16777216) % 256) as u8);
    proof {
        assert(out@ =~= old(out)@ + u32_le(n));
    }
}

/// Appends a length-prefixed byte string to `out`.
fn push_blob(out: &mut Vec<u8>, data: &Vec<u8>)
    requires
        data@.len() < 4294967296,
    ensures
        final(out)@ == old(out)@ + blob_bytes(data@),
{
    push_u32(out, data.len() as u32);
    push_bytes(out, data);
    proof {
        assert(out@ =~= old(out)@ + blob_bytes(data@));
    }
}

/// Takes `n` raw bytes of `buf` starting at `pos`, as `parse_fixed` does.
fn read_fixed(buf: &Vec<u8>, pos: usize, n: usize) -> (r: Option<(Vec<u8>, usize)>)
    ensures
        r matches Some((v, j)) ==> parse_fixed(buf@, pos as int, n as int) == Some((
            v@,
            j as int,
        )) && v@.len() == n,
        (r is None) == (parse_fixed(buf@, pos as int, n as int) is None),
{
    if pos > buf.len() || n > buf.len() - pos {
        return None;
    }
    let mut v: Vec<u8> = Vec::new();
    let mut k: usize = 0;
    while k < n
        invariant
            k <= n,
            pos + n <= buf.len(),
            v@ == buf@.subrange(pos as int, pos as int + k as int),
        decreases n - k,
    {
        v.push(buf[pos + k]);
        k = k + 1;
        proof {
            assert(v@ =~= buf@.subrange(pos as int, pos as int + k as int));
        }
    }
    Some((v, pos + n))
}

/// Reads a 32-bit little-endian value of `buf` at `pos`, as `parse_u32` does.
fn read_u32(buf: &Vec<u8>, pos: usize) -> (r: Option<(u32, usize)>)
    ensures
        r matches Some((n, j)) ==> parse_u32(buf@, pos as int) == Some((n, j as int)),
        (r is None) == (parse_u32(buf@, pos as int) is None),
{
    match read_fixed(buf, pos, 4) {
        Some((b, j)) => {
            let n = b[0] as u32 + (b[1] as u32) * 256 + (b[2] as u32) * 65536 + (b[3] as u32)
                * 16777216;
            proof {
                assert(n == u32_from(b@));
            }
            Some((n, j))
        },
        None => None,
    }
}

/// Reads a length-prefixed byte string of `buf` at `pos`, as `parse_blob`
/// does.
fn read_blob(buf: &Vec<u8>, pos: usize, max: u32) -> (r: Option<(Vec<u8>, usize)>)
    ensures
        r matches Some((v, j)) ==> parse_blob(buf@, pos as int, max as int) == Some((
            v@,
            j as int,
        )) && v@.len() <= max,
        (r is None) == (parse_blob(buf@, pos as int, max as int) is None),
{
    match read_u32(buf, pos) {
        Some((n, j)) => if n <= max {
            match read_fixed(buf, j, n as usize) {
                Some((v, k)) => Some((v, k)),
                None => None,
            }
        } else {
            None
        },
        None => None,
    }
}

/// A header on the wire: sender, guid and signature raw (their lengths are
/// fixed by the protocol), metadata length-prefixed.
pub open spec fn header_bytes(h: HeaderView) -> Seq<u8>
    recommends
        h.wf(),
{
    h.sender + h.guid + blob_bytes(h.metadata) + h.signature
}

/// Reads a header at `i`, enforcing the protocol's field lengths.
pub open spec fn parse_header(s: Seq<u8>, i: int) -> Option<(HeaderView, int)> {
    match parse_fixed(s, i, ADDRESS_SIZE as int) {
        Some((sender, i1)) => match parse_fixed(s, i1, GUID_SIZE as int) {
            Some((guid, i2)) => match parse_blob(s, i2, MAX_HEADER_METADATA_SIZE as int) {
                Some((metadata, i3)) => match parse_fixed(s, i3, SIGNATURE_SIZE as int) {
                    Some((signature, i4)) => Some(
                        (HeaderView { sender, guid, metadata, signature }, i4),
                    ),
                    None => None,
                },
                None => None,
            },
            None => None,
        },
        None => None,
    }
}

/// A message on the wire: the embedded header, then recipient and signature
/// raw, with the body length-prefixed.
pub open spec fn message_bytes(m: MessageView) -> Seq<u8>
    recommends
        m.wf(),
{
    header_bytes(m.header) + m.recipient + blob_bytes(m.body) + m.signature
}

/// Reads a message at `i`, enforcing the protocol's field lengths.
pub open spec fn parse_message(s: Seq<u8>, i: int) -> Option<(MessageView, int)> {
    match parse_header(s, i) {
        Some((header, i1)) => match parse_fixed(s, i1, ADDRESS_SIZE as int) {
            Some((recipient, i2)) => match parse_blob(s, i2, MAX_BODY_SIZE as int) {
                Some((body, i3)) => match parse_fixed(s, i3, SIGNATURE_SIZE as int) {
                    Some((signature, i4)) => Some(
                        (MessageView { header, recipient, body, signature }, i4),
                    ),
                    None => None,
                },
                None => None,
            },
            None => None,
        },
        None => None,
    }
}

/// Reading a header where the bytes of a well-formed header lie reproduces
/// that header and stops right after it.
proof fn lemma_parse_header_of_encoding(h: HeaderView, s: Seq<u8>, i: int)
    requires
        h.wf(),
        0 <= i,
        i + header_bytes(h).len() <= s.len(),
        s.subrange(i, i + header_bytes(h).len() as int) == header_bytes(h),
    ensures
        parse_header(s, i) == Some((h, i + header_bytes(h).len() as int)),
{
    let hb = header_bytes(h);
    let md = h.metadata.len() as int;
    assert(hb.len() == 116 + md);
    lemma_subrange_of_matching(s, i, hb, 0, 32);
    assert(hb.subrange(0, 32) =~= h.sender);
    lemma_subrange_of_matching(s, i, hb, 32, 48);
    assert(hb.subrange(32, 48) =~= h.guid);
    lemma_subrange_of_matching(s, i, hb, 48, 52);
    assert(hb.subrange(48, 52) =~= u32_le(h.metadata.len() as u32));
    lemma_u32_round_trip(h.metadata.len() as u32);
    lemma_subrange_of_matching(s, i, hb, 52, 52 + md);
    assert(hb.subrange(52, 52 + md) =~= h.metadata);
    lemma_subrange_of_matching(s, i, hb, 52 + md, 116 + md);
    assert(hb.subrange(52 + md, 116 + md) =~= h.signature);
    assert(parse_header(s, i) == Some((h, i + hb.len() as int)));
}

/// Reading a message where the bytes of a well-formed message lie reproduces
/// that message and stops right after it.
proof fn lemma_parse_message_of_encoding(m: MessageView, s: Seq<u8>, i: int)
    requires
        m.wf(),
        0 <= i,
        i + message_bytes(m).len() <= s.len(),
        s.subrange(i, i + message_bytes(m).len() as int) == message_bytes(m),
    ensures
        parse_message(s, i) == Some((m, i + message_bytes(m).len() as int)),
{
    let mb = message_bytes(m);
    let hb = header_bytes(m.header);
    let hl = hb.len() as int;
    let bd = m.body.len() as int;
    assert(mb.len() == hl + 100 + bd);
    lemma_subrange_of_matching(s, i, mb, 0, hl);
    assert(mb.subrange(0, hl) =~= hb);
    lemma_parse_header_of_encoding(m.header, s, i);
    lemma_subrange_of_matching(s, i, mb, hl, hl + 32);
    assert(mb.subrange(hl, hl + 32) =~= m.recipient);
    lemma_subrange_of_matching(s, i, mb, hl + 32, hl + 36);
    assert(mb.subrange(hl + 32, hl + 36) =~= u32_le(m.body.len() as u32));
    lemma_u32_round_trip(m.body.len() as u32);
    lemma_subrange_of_matching(s, i, mb, hl + 36, hl + 36 + bd);
    assert(mb.subrange(hl + 36, hl + 36 + bd) =~= m.body);
    lemma_subrange_of_matching(s, i, mb, hl + 36 + bd, hl + 100 + bd);
    assert(mb.subrange(hl + 36 + bd, hl + 100 + bd) =~= m.signature);
    assert(parse_message(s, i) == Some((m, i + mb.len() as int)));
}

/// Appends the wire form of a header to `out`.
fn push_header(out: &mut Vec<u8>, h: &MpidHeader)
    requires
        h@.wf(),
    ensures
        final(out)@ == old(out)@ + header_bytes(h@),
{
    push_bytes(out, &h.sender.bytes);
    push_bytes(out, &h.guid);
    push_blob(out, &h.metadata);
    push_bytes(out, &h.signature.bytes);
    proof {
        assert(out@ =~= old(out)@ + header_bytes(h@));
    }
}

/// Appends the wire form of a message to `out`.
fn push_message(out: &mut Vec<u8>, m: &MpidMessage)
    requires
        m@.wf(),
    ensures
        final(out)@ == old(out)@ + message_bytes(m@),
{
    push_header(out, &m.header);
    push_bytes(out, &m.recipient.bytes);
    push_blob(out, &m.body);
    push_bytes(out, &m.signature.bytes);
    proof {
        assert(out@ =~= old(out)@ + message_bytes(m@));
    }
}

/// Reads a header of `buf` at `pos`, as `parse_header` does.
fn read_header(buf: &Vec<u8>, pos: usize) -> (r: Option<(MpidHeader, usize)>)
    ensures
        r matches Some((h, j)) ==> parse_header(buf@, pos as int) == Some((h@, j as int))
            && h@.wf(),
        (r is None) == (parse_header(buf@, pos as int) is None),
{
    match read_fixed(buf, pos, ADDRESS_SIZE) {
        Some((sender, i1)) => match read_fixed(buf, i1, GUID_SIZE) {
            Some((guid, i2)) => match read_blob(buf, i2, MAX_HEADER_METADATA_SIZE as u32) {
                Some((metadata, i3)) => match read_fixed(buf, i3, SIGNATURE_SIZE) {
                    Some((signature, i4)) => Some(
                        (
                            MpidHeader {
                                sender: Address { bytes: sender },
                                guid,
                                metadata,
                                signature: Signature { bytes: signature },
                            },
                            i4,
                        ),
                    ),
                    None => None,
                },
                None => None,
            },
            None => None,
        },
        None => None,
    }
}

/// Reads a message of `buf` at `pos`, as `parse_message` does.
fn read_message(buf: &Vec<u8>, pos: usize) -> (r: Option<(MpidMessage, usize)>)
    ensures
        r matches Some((m, j)) ==> parse_message(buf@, pos as int) == Some((m@, j as int))
            && m@.wf(),
        (r is None) == (parse_message(buf@, pos as int) is None),
{
    match read_header(buf, pos) {
        Some((header, i1)) => match read_fixed(buf, i1, ADDRESS_SIZE) {
            Some((recipient, i2)) => match read_blob(buf, i2, MAX_BODY_SIZE as u32) {
                Some((body, i3)) => match read_fixed(buf, i3, SIGNATURE_SIZE) {
                    Some((signature, i4)) => Some(
                        (
                            MpidMessage {
                                header,
                                recipient: Address { bytes: recipient },
                                body,
                                signature: Signature { bytes: signature },
                            },
                            i4,
                        ),
                    ),
                    None => None,
                },
                None => None,
            },
            None => None,
        },
        None => None,
    }
}

/// A list of headers on the wire, one after the other.
pub open spec fn headers_bytes(hs: Seq<HeaderView>) -> Seq<u8>
    decreases hs.len(),
{
    if hs.len() == 0 {
        Seq::empty()
    } else {
        header_bytes(hs[0]) + headers_bytes(hs.drop_first())
    }
}

/// A header list on the wire: its length, then the headers.
pub open spec fn header_list_bytes(hs: Seq<HeaderView>) -> Seq<u8>
    recommends
        hs.len() < 4294967296,
{
    u32_le(hs.len() as u32) + headers_bytes(hs)
}

/// A list of addresses on the wire, one after the other, each a raw
/// fixed-length block.
pub open spec fn addresses_bytes(addrs: Seq<Seq<u8>>) -> Seq<u8>
    decreases addrs.len(),
{
    if addrs.len() == 0 {
        Seq::empty()
    } else {
        addrs[0] + addresses_bytes(addrs.drop_first())
    }
}

/// An address list on the wire: its length, then the addresses.
pub open spec fn address_list_bytes(addrs: Seq<Seq<u8>>) -> Seq<u8>
    recommends
        addrs.len() < 4294967296,
{
    u32_le(addrs.len() as u32) + addresses_bytes(addrs)
}

/// Reads `count` headers of `s` starting at `i`.
pub open spec fn parse_headers(s: Seq<u8>, i: int, count: int) -> Option<(Seq<HeaderView>, int)>
    decreases count,
{
    if count <= 0 {
        Some((Seq::empty(), i))
    } else {
        match parse_header(s, i) {
            Some((h, j)) => match parse_headers(s, j, count - 1) {
                Some((rest, k)) => Some((seq![h] + rest, k)),
                None => None,
            },
            None => None,
        }
    }
}

/// Reads a length-prefixed header list of `s` at `i`.
pub open spec fn parse_header_list(s: Seq<u8>, i: int) -> Option<(Seq<HeaderView>, int)> {
    match parse_u32(s, i) {
        Some((n, j)) => parse_headers(s, j, n as int),
        None => None,
    }
}

/// Reads `count` addresses of `s` starting at `i`.
pub open spec fn parse_addresses(s: Seq<u8>, i: int, count: int) -> Option<(Seq<Seq<u8>>, int)>
    decreases count,
{
    if count <= 0 {
        Some((Seq::empty(), i))
    } else {
        match parse_fixed(s, i, ADDRESS_SIZE as int) {
            Some((a, j)) => match parse_addresses(s, j, count - 1) {
                Some((rest, k)) => Some((seq![a] + rest, k)),
                None => None,
            },
            None => None,
        }
    }
}

/// Reads a length-prefixed address list of `s` at `i`.
pub open spec fn parse_address_list(s: Seq<u8>, i: int) -> Option<(Seq<Seq<u8>>, int)> {
    match parse_u32(s, i) {
        Some((n, j)) => parse_addresses(s, j, n as int),
        None => None,
    }
}

/// Appending a header to a list appends its bytes to the list's bytes.
proof fn lemma_headers_bytes_push(p: Seq<HeaderView>, h: HeaderView)
    ensures
        headers_bytes(p.push(h)) == headers_bytes(p) + header_bytes(h),
    decreases p.len(),
{
    let q = p.push(h);
    if p.len() == 0 {
        assert(q[0] == h);
        assert(q.drop_first() =~= Seq::<HeaderView>::empty());
        assert(headers_bytes(q) == header_bytes(h) + headers_bytes(Seq::<HeaderView>::empty()));
        assert(headers_bytes(q) =~= headers_bytes(p) + header_bytes(h));
    } else {
        lemma_headers_bytes_push(p.drop_first(), h);
        assert(q[0] == p[0]);
        assert(q.drop_first() =~= p.drop_first().push(h));
        assert(headers_bytes(q) == header_bytes(p[0]) + headers_bytes(p.drop_first().push(h)));
        assert(headers_bytes(q) =~= headers_bytes(p) + header_bytes(h));
    }
}

/// Appending an address to a list appends its bytes to the list's bytes.
proof fn lemma_addresses_bytes_push(p: Seq<Seq<u8>>, a: Seq<u8>)
    ensures
        addresses_bytes(p.push(a)) == addresses_bytes(p) + a,
    decreases p.len(),
{
    let q = p.push(a);
    if p.len() == 0 {
        assert(q[0] == a);
        assert(q.drop_first() =~= Seq::<Seq<u8>>::empty());
        assert(addresses_bytes(q) == a + addresses_bytes(Seq::<Seq<u8>>::empty()));
        assert(addresses_bytes(q) =~= addresses_bytes(p) + a);
    } else {
        lemma_addresses_bytes_push(p.drop_first(), a);
        assert(q[0] == p[0]);
        assert(q.drop_first() =~= p.drop_first().push(a));
        assert(addresses_bytes(q) == p[0] + addresses_bytes(p.drop_first().push(a)));
        assert(addresses_bytes(q) =~= addresses_bytes(p) + a);
    }
}

/// Reading back the bytes of a list of well-formed headers reproduces the
/// list and stops right after it.
proof fn lemma_parse_headers_of_encoding(hs: Seq<HeaderView>, s: Seq<u8>, i: int)
    requires
        forall|k: int| 0 <= k < hs.len() ==> (#[trigger] hs[k]).wf(),
        0 <= i,
        i + headers_bytes(hs).len() <= s.len(),
        s.subrange(i, i + headers_bytes(hs).len() as int) == headers_bytes(hs),
    ensures
        parse_headers(s, i, hs.len() as int) == Some((hs, i + headers_bytes(hs).len() as int)),
    decreases hs.len(),
{
    if hs.len() == 0 {
        assert(parse_headers(s, i, 0) == Some((Seq::<HeaderView>::empty(), i)));
        assert(hs =~= Seq::<HeaderView>::empty());
    } else {
        let hb = headers_bytes(hs);
        let h0 = header_bytes(hs[0]);
        let rest = hs.drop_first();
        let hl = h0.len() as int;
        lemma_subrange_of_matching(s, i, hb, 0, hl);
        assert(hb.subrange(0, hl) =~= h0);
        lemma_parse_header_of_encoding(hs[0], s, i);
        lemma_subrange_of_matching(s, i, hb, hl, hb.len() as int);
        assert(hb.subrange(hl, hb.len() as int) =~= headers_bytes(rest));
        lemma_parse_headers_of_encoding(rest, s, i + hl);
        assert(seq![hs[0]] + rest =~= hs);
    }
}

/// Reading back the bytes of a list of addresses reproduces the list and
/// stops right after it.
proof fn lemma_parse_addresses_of_encoding(addrs: Seq<Seq<u8>>, s: Seq<u8>, i: int)
    requires
        forall|k: int| 0 <= k < addrs.len() ==> (#[trigger] addrs[k]).len() == ADDRESS_SIZE,
        0 <= i,
        i + addresses_bytes(addrs).len() <= s.len(),
        s.subrange(i, i + addresses_bytes(addrs).len() as int) == addresses_bytes(addrs),
    ensures
        parse_addresses(s, i, addrs.len() as int) == Some(
            (addrs, i + addresses_bytes(addrs).len() as int),
        ),
    decreases addrs.len(),
{
    if addrs.len() == 0 {
        assert(addrs =~= Seq::<Seq<u8>>::empty());
    } else {
        let ab = addresses_bytes(addrs);
        let a0 = addrs[0];
        let rest = addrs.drop_first();
        let al = a0.len() as int;
        lemma_subrange_of_matching(s, i, ab, 0, al);
        assert(ab.subrange(0, al) =~= a0);
        lemma_subrange_of_matching(s, i, ab, al, ab.len() as int);
        assert(ab.subrange(al, ab.len() as int) =~= addresses_bytes(rest));
        lemma_parse_addresses_of_encoding(rest, s, i + al);
        assert(seq![a0] + rest =~= addrs);
    }
}

/// Appends a length-prefixed header list to `out`.
fn push_header_list(out: &mut Vec<u8>, hs: &Vec<MpidHeader>)
    requires
        hs@.len() < 4294967296,
        forall|k: int| 0 <= k < hs@.len() ==> (#[trigger] hs@[k])@.wf(),
    ensures
        final(out)@ == old(out)@ + header_list_bytes(header_views(hs@)),
{
    push_u32(out, hs.len() as u32);
    let ghost base = out@;
    let mut k: usize = 0;
    while k < hs.len()
        invariant
            k <= hs@.len(),
            forall|j: int| 0 <= j < hs@.len() ==> (#[trigger] hs@[j])@.wf(),
            out@ == base + headers_bytes(header_views(hs@).subrange(0, k as int)),
        decreases hs@.len() - k,
    {
        proof {
            assert(hs@[k as int]@.wf());
        }
        push_header(out, &hs[k]);
        k = k + 1;
        proof {
            lemma_headers_bytes_push(
                header_views(hs@).subrange(0, k as int - 1),
                hs@[k as int - 1]@,
            );
            assert(header_views(hs@).subrange(0, k as int - 1).push(hs@[k as int - 1]@)
                =~= header_views(hs@).subrange(0, k as int));
        }
    }
    proof {
        assert(header_views(hs@).subrange(0, hs@.len() as int) =~= header_views(hs@));
        assert(old(out)@ + u32_le(hs@.len() as u32) + headers_bytes(header_views(hs@)) =~= old(
            out,
        )@ + header_list_bytes(header_views(hs@)));
    }
}

/// Appends a length-prefixed address list to `out`.
fn push_address_list(out: &mut Vec<u8>, addrs: &Vec<Address>)
    requires
        addrs@.len() < 4294967296,
        forall|k: int| 0 <= k < addrs@.len() ==> (#[trigger] addrs@[k])@.len() == ADDRESS_SIZE,
    ensures
        final(out)@ == old(out)@ + address_list_bytes(address_views(addrs@)),
{
    push_u32(out, addrs.len() as u32);
    let ghost base = out@;
    let mut k: usize = 0;
    while k < addrs.len()
        invariant
            k <= addrs@.len(),
            out@ == base + addresses_bytes(address_views(addrs@).subrange(0, k as int)),
        decreases addrs@.len() - k,
    {
        push_bytes(out, &addrs[k].bytes);
        k = k + 1;
        proof {
            lemma_addresses_bytes_push(
                address_views(addrs@).subrange(0, k as int - 1),
                addrs@[k as int - 1]@,
            );
            assert(address_views(addrs@).subrange(0, k as int - 1).push(addrs@[k as int - 1]@)
                =~= address_views(addrs@).subrange(0, k as int));
        }
    }
    proof {
        assert(address_views(addrs@).subrange(0, addrs@.len() as int) =~= address_views(addrs@));
        assert(base + addresses_bytes(address_views(addrs@)) =~= old(out)@ + address_list_bytes(
            address_views(addrs@),
        ));
    }
}

/// Reads `count` headers of `buf` at `pos`, as `parse_headers` does.
fn read_headers(buf: &Vec<u8>, pos: usize, count: u32) -> (r: Option<(Vec<MpidHeader>, usize)>)
    ensures
        r matches Some((v, j)) ==> parse_headers(buf@, pos as int, count as int) == Some(
            (header_views(v@), j as int),
        ) && (forall|k: int| 0 <= k < v@.len() ==> (#[trigger] v@[k])@.wf()) && v@.len()
            == count,
        (r is None) == (parse_headers(buf@, pos as int, count as int) is None),
    decreases count,
{
    if count == 0 {
        let v: Vec<MpidHeader> = Vec::new();
        proof {
            assert(header_views(v@) =~= Seq::<HeaderView>::empty());
        }
        Some((v, pos))
    } else {
        match read_header(buf, pos) {
            Some((h, j)) => match read_headers(buf, j, count - 1) {
                Some((rest, k)) => {
                    let ghost rest_view = rest@;
                    let mut v = rest;
                    v.insert(0, h);
                    proof {
                        assert(header_views(v@) =~= seq![h@] + header_views(rest_view));
                    }
                    Some((v, k))
                },
                None => None,
            },
            None => None,
        }
    }
}

/// Reads `count` addresses of `buf` at `pos`, as `parse_addresses` does.
fn read_addresses(buf: &Vec<u8>, pos: usize, count: u32) -> (r: Option<(Vec<Address>, usize)>)
    ensures
        r matches Some((v, j)) ==> parse_addresses(buf@, pos as int, count as int) == Some(
            (address_views(v@), j as int),
        ) && (forall|k: int| 0 <= k < v@.len() ==> (#[trigger] v@[k])@.len() == ADDRESS_SIZE)
            && v@.len() == count,
        (r is None) == (parse_addresses(buf@, pos as int, count as int) is None),
    decreases count,
{
    if count == 0 {
        let v: Vec<Address> = Vec::new();
        proof {
            assert(address_views(v@) =~= Seq::<Seq<u8>>::empty());
        }
        Some((v, pos))
    } else {
        match read_fixed(buf, pos, ADDRESS_SIZE) {
            Some((a, j)) => match read_addresses(buf, j, count - 1) {
                Some((rest, k)) => {
                    let ghost rest_view = rest@;
                    let mut v = rest;
                    v.insert(0, Address { bytes: a });
                    proof {
                        assert(address_views(v@) =~= seq![a@] + address_views(rest_view));
                    }
                    Some((v, k))
                },
                None => None,
            },
            None => None,
        }
    }
}

/// A wrapper on the wire: its tag byte, then the variant's payload.
pub open spec fn wrapper_bytes(w: WrapperView) -> Seq<u8>
    recommends
        w.wf(),
{
    match w {
        WrapperView::Online => seq![TAG_ONLINE],
        WrapperView::PutMessage(m) => seq![TAG_PUT_MESSAGE] + message_bytes(m),
        WrapperView::PutHeader(h) => seq![TAG_PUT_HEADER] + header_bytes(h),
        WrapperView::GetMessage(h) => seq![TAG_GET_MESSAGE] + header_bytes(h),
        WrapperView::OutboxHas(addrs) => seq![TAG_OUTBOX_HAS] + address_list_bytes(addrs),
        WrapperView::OutboxHasResponse(hs) => seq![TAG_OUTBOX_HAS_RESPONSE] + header_list_bytes(
            hs,
        ),
        WrapperView::GetOutboxHeaders => seq![TAG_GET_OUTBOX_HEADERS],
        WrapperView::GetOutboxHeadersResponse(hs) => seq![TAG_GET_OUTBOX_HEADERS_RESPONSE]
            + header_list_bytes(hs),
    }
}

/// Reads a whole wrapper: the tag decides the variant, the payload must
/// parse, and no bytes may be left over.  An unknown tag yields `None`,
/// never a default variant.
pub open spec fn parse_wrapper(s: Seq<u8>) -> Option<WrapperView> {
    if s.len() < 1 {
        None
    } else if s[0] == TAG_ONLINE {
        if s.len() == 1 {
            Some(WrapperView::Online)
        } else {
            None
        }
    } else if s[0] == TAG_PUT_MESSAGE {
        match parse_message(s, 1) {
            Some((m, j)) => if j == s.len() {
                Some(WrapperView::PutMessage(m))
            } else {
                None
            },
            None => None,
        }
    } else if s[0] == TAG_PUT_HEADER {
        match parse_header(s, 1) {
            Some((h, j)) => if j == s.len() {
                Some(WrapperView::PutHeader(h))
            } else {
                None
            },
            None => None,
        }
    } else if s[0] == TAG_GET_MESSAGE {
        match parse_header(s, 1) {
            Some((h, j)) => if j == s.len() {
                Some(WrapperView::GetMessage(h))
            } else {
                None
            },
            None => None,
        }
    } else if s[0] == TAG_OUTBOX_HAS {
        match parse_address_list(s, 1) {
            Some((addrs, j)) => if j == s.len() {
                Some(WrapperView::OutboxHas(addrs))
            } else {
                None
            },
            None => None,
        }
    } else if s[0] == TAG_OUTBOX_HAS_RESPONSE {
        match parse_header_list(s, 1) {
            Some((hs, j)) => if j == s.len() {
                Some(WrapperView::OutboxHasResponse(hs))
            } else {
                None
            },
            None => None,
        }
    } else if s[0] == TAG_GET_OUTBOX_HEADERS {
        if s.len() == 1 {
            Some(WrapperView::GetOutboxHeaders)
        } else {
            None
        }
    } else if s[0] == TAG_GET_OUTBOX_HEADERS_RESPONSE {
        match parse_header_list(s, 1) {
            Some((hs, j)) => if j == s.len() {
                Some(WrapperView::GetOutboxHeadersResponse(hs))
            } else {
                None
            },
            None => None,
        }
    } else {
        None
    }
}

/// Parsing a well-formed header list laid down after a tag byte reproduces
/// the list and consumes the rest of the buffer.
proof fn lemma_parse_header_list_of_encoding(hs: Seq<HeaderView>, s: Seq<u8>)
    requires
        hs.len() < 4294967296,
        forall|k: int| 0 <= k < hs.len() ==> (#[trigger] hs[k]).wf(),
        s.len() == 1 + header_list_bytes(hs).len(),
        s.subrange(1, s.len() as int) == header_list_bytes(hs),
    ensures
        parse_header_list(s, 1) == Some((hs, s.len() as int)),
{
    let lb = header_list_bytes(hs);
    lemma_subrange_of_matching(s, 1, lb, 0, 4);
    assert(lb.subrange(0, 4) =~= u32_le(hs.len() as u32));
    lemma_u32_round_trip(hs.len() as u32);
    lemma_subrange_of_matching(s, 1, lb, 4, lb.len() as int);
    assert(lb.subrange(4, lb.len() as int) =~= headers_bytes(hs));
    lemma_parse_headers_of_encoding(hs, s, 5);
}

/// Parsing a well-formed address list laid down after a tag byte reproduces
/// the list and consumes the rest of the buffer.
proof fn lemma_parse_address_list_of_encoding(addrs: Seq<Seq<u8>>, s: Seq<u8>)
    requires
        addrs.len() < 4294967296,
        forall|k: int| 0 <= k < addrs.len() ==> (#[trigger] addrs[k]).len() == ADDRESS_SIZE,
        s.len() == 1 + address_list_bytes(addrs).len(),
        s.subrange(1, s.len() as int) == address_list_bytes(addrs),
    ensures
        parse_address_list(s, 1) == Some((addrs, s.len() as int)),
{
    let lb = address_list_bytes(addrs);
    lemma_subrange_of_matching(s, 1, lb, 0, 4);
    assert(lb.subrange(0, 4) =~= u32_le(addrs.len() as u32));
    lemma_u32_round_trip(addrs.len() as u32);
    lemma_subrange_of_matching(s, 1, lb, 4, lb.len() as int);
    assert(lb.subrange(4, lb.len() as int) =~= addresses_bytes(addrs));
    lemma_parse_addresses_of_encoding(addrs, s, 5);
}

/// Round trip: decoding the encoding of any well-formed wrapper value
/// reproduces that value exactly, for every variant, the no-payload ones
/// included.
pub proof fn lemma_wrapper_round_trip(w: WrapperView)
    requires
        w.wf(),
    ensures
        parse_wrapper(wrapper_bytes(w)) == Some(w),
{
    let s = wrapper_bytes(w);
    match w {
        WrapperView::Online => {
            assert(s.len() == 1 && s[0] == TAG_ONLINE);
        },
        WrapperView::PutMessage(m) => {
            let mb = message_bytes(m);
            assert(s.len() == 1 + mb.len() && s[0] == TAG_PUT_MESSAGE);
            assert(s.subrange(1, s.len() as int) =~= mb);
            lemma_parse_message_of_encoding(m, s, 1);
        },
        WrapperView::PutHeader(h) => {
            let hb = header_bytes(h);
            assert(s.len() == 1 + hb.len() && s[0] == TAG_PUT_HEADER);
            assert(s.subrange(1, s.len() as int) =~= hb);
            lemma_parse_header_of_encoding(h, s, 1);
        },
        WrapperView::GetMessage(h) => {
            let hb = header_bytes(h);
            assert(s.len() == 1 + hb.len() && s[0] == TAG_GET_MESSAGE);
            assert(s.subrange(1, s.len() as int) =~= hb);
            lemma_parse_header_of_encoding(h, s, 1);
        },
        WrapperView::OutboxHas(addrs) => {
            assert(s.len() == 1 + address_list_bytes(addrs).len() && s[0] == TAG_OUTBOX_HAS);
            assert(s.subrange(1, s.len() as int) =~= address_list_bytes(addrs));
            lemma_parse_address_list_of_encoding(addrs, s);
        },
        WrapperView::OutboxHasResponse(hs) => {
            assert(s.len() == 1 + header_list_bytes(hs).len() && s[0] == TAG_OUTBOX_HAS_RESPONSE);
            assert(s.subrange(1, s.len() as int) =~= header_list_bytes(hs));
            lemma_parse_header_list_of_encoding(hs, s);
        },
        WrapperView::GetOutboxHeaders => {
            assert(s.len() == 1 && s[0] == TAG_GET_OUTBOX_HEADERS);
        },
        WrapperView::GetOutboxHeadersResponse(hs) => {
            assert(s.len() == 1 + header_list_bytes(hs).len() && s[0]
                == TAG_GET_OUTBOX_HEADERS_RESPONSE);
            assert(s.subrange(1, s.len() as int) =~= header_list_bytes(hs));
            lemma_parse_header_list_of_encoding(hs, s);
        },
    }
}

impl MpidMessageWrapper {
    /// Encodes this wrapper for the wire.
    pub fn encode(&self) -> (r: Vec<u8>)
        requires
            self@.wf(),
        ensures
            r@ == wrapper_bytes(self@),
    {
        let mut out: Vec<u8> = Vec::new();
        match self {
            MpidMessageWrapper::Online => {
                out.push(TAG_ONLINE);
            },
            MpidMessageWrapper::PutMessage(m) => {
                out.push(TAG_PUT_MESSAGE);
                push_message(&mut out, m);
            },
            MpidMessageWrapper::PutHeader(h) => {
                out.push(TAG_PUT_HEADER);
                push_header(&mut out, h);
            },
            MpidMessageWrapper::GetMessage(h) => {
                out.push(TAG_GET_MESSAGE);
                push_header(&mut out, h);
            },
            MpidMessageWrapper::OutboxHas(addrs) => {
                out.push(TAG_OUTBOX_HAS);
                proof {
                    assert forall|k: int| 0 <= k < addrs@.len() implies (#[trigger] addrs@[k])@.len()
                        == ADDRESS_SIZE by {
                        assert(address_views(addrs@)[k] == addrs@[k]@);
                    }
                }
                push_address_list(&mut out, addrs);
            },
            MpidMessageWrapper::OutboxHasResponse(hs) => {
                out.push(TAG_OUTBOX_HAS_RESPONSE);
                proof {
                    assert forall|k: int| 0 <= k < hs@.len() implies (#[trigger] hs@[k])@.wf() by {
                        assert(header_views(hs@)[k] == hs@[k]@);
                    }
                }
                push_header_list(&mut out, hs);
            },
            MpidMessageWrapper::GetOutboxHeaders => {
                out.push(TAG_GET_OUTBOX_HEADERS);
            },
            MpidMessageWrapper::GetOutboxHeadersResponse(hs) => {
                out.push(TAG_GET_OUTBOX_HEADERS_RESPONSE);
                proof {
                    assert forall|k: int| 0 <= k < hs@.len() implies (#[trigger] hs@[k])@.wf() by {
                        assert(header_views(hs@)[k] == hs@[k]@);
                    }
                }
                push_header_list(&mut out, hs);
            },
        }
        proof {
            assert(out@ =~= wrapper_bytes(self@));
        }
        out
    }

    /// Decodes a wrapper from its wire form.  A short buffer, an unknown
    /// tag, a payload that does not parse and trailing bytes are all
    /// rejected; no default variant is ever produced.
    pub fn decode(buf: &Vec<u8>) -> (r: Option<MpidMessageWrapper>)
        ensures
            r matches Some(w) ==> parse_wrapper(buf@) == Some(w@) && w@.wf(),
            (r is None) == (parse_wrapper(buf@) is None),
    {
        if buf.len() == 0 {
            return None;
        }
        let tag = buf[0];
        if tag == TAG_ONLINE {
            if buf.len() == 1 {
                Some(MpidMessageWrapper::Online)
            } else {
                None
            }
        } else if tag == TAG_PUT_MESSAGE {
            match read_message(buf, 1) {
                Some((m, j)) => if j == buf.len() {
                    Some(MpidMessageWrapper::PutMessage(m))
                } else {
                    None
                },
                None => None,
            }
        } else if tag == TAG_PUT_HEADER {
            match read_header(buf, 1) {
                Some((h, j)) => if j == buf.len() {
                    Some(MpidMessageWrapper::PutHeader(h))
                } else {
                    None
                },
                None => None,
            }
        } else if tag == TAG_GET_MESSAGE {
            match read_header(buf, 1) {
                Some((h, j)) => if j == buf.len() {
                    Some(MpidMessageWrapper::GetMessage(h))
                } else {
                    None
                },
                None => None,
            }
        } else if tag == TAG_OUTBOX_HAS {
            match read_u32(buf, 1) {
                Some((n, j)) => match read_addresses(buf, j, n) {
                    Some((v, k)) => if k == buf.len() {
                        proof {
                            assert forall|i: int|
                                0 <= i < address_views(v@).len() implies (#[trigger] address_views(
                                v@,
                            )[i]).len() == ADDRESS_SIZE by {
                                assert(address_views(v@)[i] == v@[i]@);
                            }
                        }
                        Some(MpidMessageWrapper::OutboxHas(v))
                    } else {
                        None
                    },
                    None => None,
                },
                None => None,
            }
        } else if tag == TAG_OUTBOX_HAS_RESPONSE {
            match read_u32(buf, 1) {
                Some((n, j)) => match read_headers(buf, j, n) {
                    Some((v, k)) => if k == buf.len() {
                        proof {
                            assert forall|i: int|
                                0 <= i < header_views(v@).len() implies (#[trigger] header_views(
                                v@,
                            )[i]).wf() by {
                                assert(header_views(v@)[i] == v@[i]@);
                            }
                        }
                        Some(MpidMessageWrapper::OutboxHasResponse(v))
                    } else {
                        None
                    },
                    None => None,
                },
                None => None,
            }
        } else if tag == TAG_GET_OUTBOX_HEADERS {
            if buf.len() == 1 {
                Some(MpidMessageWrapper::GetOutboxHeaders)
            } else {
                None
            }
        } else if tag == TAG_GET_OUTBOX_HEADERS_RESPONSE {
            match read_u32(buf, 1) {
                Some((n, j)) => match read_headers(buf, j, n) {
                    Some((v, k)) => if k == buf.len() {
                        proof {
                            assert forall|i: int|
                                0 <= i < header_views(v@).len() implies (#[trigger] header_views(
                                v@,
                            )[i]).wf() by {
                                assert(header_views(v@)[i] == v@[i]@);
                            }
                        }
                        Some(MpidMessageWrapper::GetOutboxHeadersResponse(v))
                    } else {
                        None
                    },
                    None => None,
                },
                None => None,
            }
        } else {
            None
        }
    }
}

} // verus!


