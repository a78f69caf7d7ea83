//! The response envelopes a handler produces: a typed PDU, or its encoded
//! bytes, each tagged with the multiplexed sub-channel it must go out on.

use vstd::prelude::*;

use crate::ngap::{NgapPdu, NgapPduView};

verus! {

/// A typed NGAP response, paired with the stream it is sent on.
#[derive(Debug, PartialEq, Eq)]
pub struct NGAPResponse {
    pub sctp_stream: u8,
    pub ngap_pdu: NgapPdu,
}

#[verifier::ext_equal]
pub struct NGAPResponseView {
    pub sctp_stream: u8,
    pub ngap_pdu: NgapPduView,
}

impl DeepView for NGAPResponse {
    type V = NGAPResponseView;

    open spec fn deep_view(&self) -> NGAPResponseView {
        NGAPResponseView { sctp_stream: self.sctp_stream, ngap_pdu: self.ngap_pdu.deep_view() }
    }
}

/// A byte-encoded NGAP response, paired with the stream it is sent on.
#[derive(Debug, PartialEq, Eq)]
pub struct ByteResponse {
    pub sctp_stream: u8,
    pub buf: Vec<u8>,
}

#[verifier::ext_equal]
pub struct ByteResponseView {
    pub sctp_stream: u8,
    pub buf: Seq<u8>,
}

impl DeepView for ByteResponse {
    type V = ByteResponseView;

    open spec fn deep_view(&self) -> ByteResponseView {
        ByteResponseView { sctp_stream: self.sctp_stream, buf: self.buf@ }
    }
}

} // verus!
