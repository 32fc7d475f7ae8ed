//! The operation sum type of the mailbox protocol: every unit exchanged
//! between a client and a manager node is one of these variants, carrying a
//! header, a message or an address list as its payload.

use vstd::prelude::*;

use crate::mpid_header::{HeaderView, MpidHeader};
use crate::mpid_message::{MessageView, MpidMessage};
use crate::types::Address;

verus! {

/// The mathematical content of an [`MpidMessageWrapper`].
pub enum WrapperView {
    /// A liveness announcement; no payload.
    Online,
    /// Store a full message in the sender's outbox.
    PutMessage(MessageView),
    /// Store a notification header in the recipient's inbox.
    PutHeader(HeaderView),
    /// Request the full message for a known header.
    GetMessage(HeaderView),
    /// Ask which of the named envelopes the outbox still holds.
    OutboxHas(Seq<Seq<u8>>),
    /// The headers, among those asked about, still present in the outbox.
    OutboxHasResponse(Seq<HeaderView>),
    /// Ask for every header currently retained in the outbox; no payload.
    GetOutboxHeaders,
    /// Every header currently retained in the outbox.
    GetOutboxHeadersResponse(Seq<HeaderView>),
}

/// The views of a list of addresses.
pub open(crate) spec fn address_views(v: Seq<Address>) -> Seq<Seq<u8>> {
    Seq::new(v.len(), |i: int| v[i]@)
}

/// The views of a list of headers.
pub open(crate) spec fn header_views(v: Seq<MpidHeader>) -> Seq<HeaderView> {
    Seq::new(v.len(), |i: int| v[i]@)
}

impl WrapperView {
    /// Payload lengths fit the wire format: every element is well formed and
    /// a list's length fits in 32 bits.
    pub open spec fn wf(self) -> bool {
        match self {
            WrapperView::Online => true,
            WrapperView::PutMessage(m) => m.wf(),
            WrapperView::PutHeader(h) => h.wf(),
            WrapperView::GetMessage(h) => h.wf(),
            WrapperView::OutboxHas(addrs) => addrs.len() < 4294967296 && (forall|i: int|
                0 <= i < addrs.len() ==> (#[trigger] addrs[i]).len() == crate::ADDRESS_SIZE),
            WrapperView::OutboxHasResponse(hs) => hs.len() < 4294967296 && (forall|i: int|
                0 <= i < hs.len() ==> (#[trigger] hs[i]).wf()),
            WrapperView::GetOutboxHeaders => true,
            WrapperView::GetOutboxHeadersResponse(hs) => hs.len() < 4294967296 && (forall|i: int|
                0 <= i < hs.len() ==> (#[trigger] hs[i]).wf()),
        }
    }
}

/// A wrapper for the types which can be sent to or retrieved from the
/// network: the protocol's complete operation vocabulary.
#[derive(Clone, Debug, PartialEq, Eq, Hash)]
pub enum MpidMessageWrapper {
    /// A liveness announcement; no payload.
    Online,
    /// Store a full message in the sender's outbox.
    PutMessage(MpidMessage),
    /// Store a notification header in the recipient's inbox.
    PutHeader(MpidHeader),
    /// Request the full message for a known header.
    GetMessage(MpidHeader),
    /// Ask which of the named envelopes the outbox still holds.
    OutboxHas(Vec<Address>),
    /// The headers, among those asked about, still present in the outbox.
    OutboxHasResponse(Vec<MpidHeader>),
    /// Ask for every header currently retained in the outbox; no payload.
    GetOutboxHeaders,
    /// Every header currently retained in the outbox.
    GetOutboxHeadersResponse(Vec<MpidHeader>),
}

impl View for MpidMessageWrapper {
    type V = WrapperView;

    open(crate) spec fn view(&self) -> WrapperView {
        match self {
            MpidMessageWrapper::Online => WrapperView::Online,
            MpidMessageWrapper::PutMessage(m) => WrapperView::PutMessage(m@),
            MpidMessageWrapper::PutHeader(h) => WrapperView::PutHeader(h@),
            MpidMessageWrapper::GetMessage(h) => WrapperView::GetMessage(h@),
            MpidMessageWrapper::OutboxHas(addrs) => WrapperView::OutboxHas(address_views(addrs@)),
            MpidMessageWrapper::OutboxHasResponse(hs) => WrapperView::OutboxHasResponse(
                header_views(hs@),
            ),
            MpidMessageWrapper::GetOutboxHeaders => WrapperView::GetOutboxHeaders,
            MpidMessageWrapper::GetOutboxHeadersResponse(hs) => WrapperView::GetOutboxHeadersResponse(
                header_views(hs@),
            ),
        }
    }
}

} // verus!
