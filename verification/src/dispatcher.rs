//! The NGAP dispatcher: decodes a raw datagram payload into a typed PDU,
//! routes initiating messages to their procedure handlers, encodes every
//! produced response into a fresh buffer, and frames it behind the 4-byte
//! frontend identifier and the one-byte stream tag. A datagram that cannot
//! be decoded is dropped without a reply and without a panic; nothing is
//! shared between datagrams but the read-only configuration, so what comes
//! out is a function of the one datagram and the configuration alone.

use vstd::prelude::*;

use crate::bytes::{append_bytes, copy_bytes, slice_range, suffix_from};
use crate::codec::{decode_pdu, enc_pdu, encode_pdu, spec_decode_pdu, wf_pdu};
use crate::config::{wf_config, ConfigView, CoreKubeConfig};
use crate::ngap::{InitiatingMessage, InitiatingMessageValue, InitiatingMessageValueView,
    InitiatingMessageView, NgapPdu, NgapPduView};
use crate::ngap_handlers::response::{ByteResponse, ByteResponseView, NGAPResponse,
    NGAPResponseView};
use crate::ngap_handlers::setup_request::{
    handle_setup_request, lemma_setup_response_wf, spec_handle_setup_request,
};
use crate::ngap_handlers::{handle_initial_ue_message, handle_uplink_nas_transport};

verus! {

/// What an initiating message is answered with: the setup handler's
/// responses for an NGSetupRequest, and nothing for the other procedures in
/// this version. Outcomes and unsupported procedures are dropped.
pub open spec fn spec_initiating_message_handler(
    c: ConfigView,
    m: InitiatingMessageView,
) -> Seq<NGAPResponseView> {
    match m.value {
        InitiatingMessageValueView::NgSetup(req) => spec_handle_setup_request(c, req),
        InitiatingMessageValueView::InitialUeMessage(_) => Seq::empty(),
        InitiatingMessageValueView::UplinkNasTransport(_) => Seq::empty(),
        InitiatingMessageValueView::Unsupported(_) => Seq::empty(),
    }
}

/// Routes an initiating message to the handler of its procedure.
pub fn ngap_initiating_message_handler(
    config: &CoreKubeConfig,
    init_msg: InitiatingMessage,
) -> (r: Vec<NGAPResponse>)
    requires
        config.wf(),
    ensures
        r.deep_view() == spec_initiating_message_handler(config.deep_view(), init_msg.deep_view()),
{
    match init_msg.value {
        InitiatingMessageValue::NgSetup(ng_setup) => handle_setup_request(config, ng_setup),
        InitiatingMessageValue::InitialUeMessage(ue_msg) => handle_initial_ue_message(
            config,
            ue_msg,
        ),
        InitiatingMessageValue::UplinkNasTransport(nas_transport) => handle_uplink_nas_transport(
            config,
            nas_transport,
        ),
        InitiatingMessageValue::Unsupported(_) => {
            // unknown procedure: logged and dropped, never fatal
            let r = Vec::<NGAPResponse>::new();
            proof {
                assert(r.deep_view() =~= Seq::<NGAPResponseView>::empty());
            }
            r
        },
    }
}

/// Every response a handler produces can be encoded: the only PDU they
/// build is the setup response, which a well-formed configuration keeps
/// within every wire length field.
pub proof fn lemma_initiating_responses_wf(c: ConfigView, m: InitiatingMessageView)
    requires
        wf_config(c),
    ensures
        forall|j: int|
            0 <= j < spec_initiating_message_handler(c, m).len() ==> wf_pdu(
                #[trigger] spec_initiating_message_handler(c, m)[j].ngap_pdu,
            ),
{
    lemma_setup_response_wf(c);
}

/// What a raw NGAP payload is answered with: nothing unless it decodes to
/// an initiating message, else each handler response encoded on its own.
pub open spec fn spec_ngap_handler_entrypoint(c: ConfigView, buf: Seq<u8>) -> Seq<
    ByteResponseView,
> {
    match spec_decode_pdu(buf) {
        None => Seq::empty(),
        Some(pdu) => match pdu {
            NgapPduView::InitiatingMessage(m) => spec_initiating_message_handler(c, m).map_values(
                |r: NGAPResponseView|
                    ByteResponseView { sctp_stream: r.sctp_stream, buf: enc_pdu(r.ngap_pdu) },
            ),
            NgapPduView::SuccessfulOutcome(_) => Seq::empty(),
            NgapPduView::UnsuccessfulOutcome(_) => Seq::empty(),
        },
    }
}

/// Decodes a raw NGAP payload, routes it, and encodes each response into a
/// buffer of its own. A payload that does not decode, and any outer kind
/// but an initiating message, produces nothing.
pub fn ngap_handler_entrypoint(config: &CoreKubeConfig, buf: &Vec<u8>) -> (r: Vec<ByteResponse>)
    requires
        config.wf(),
    ensures
        r.deep_view() == spec_ngap_handler_entrypoint(config.deep_view(), buf@),
{
    let empty = Vec::<ByteResponse>::new();
    proof {
        assert(empty.deep_view() =~= Seq::<ByteResponseView>::empty());
    }
    let pdu = match decode_pdu(buf) {
        None => {
            // a malformed datagram is dropped, never a panic
            return empty;
        },
        Some(p) => p,
    };
    let init_msg = match pdu {
        NgapPdu::InitiatingMessage(m) => m,
        NgapPdu::SuccessfulOutcome(_) => {
            // this node opens no procedures: logged and dropped
            return empty;
        },
        NgapPdu::UnsuccessfulOutcome(_) => {
            // this node opens no procedures: logged and dropped
            return empty;
        },
    };
    let ghost mv = init_msg.deep_view();
    let responses = ngap_initiating_message_handler(config, init_msg);
    proof {
        lemma_initiating_responses_wf(config.deep_view(), mv);
    }
    let ghost target = spec_ngap_handler_entrypoint(config.deep_view(), buf@);
    let mut out = Vec::<ByteResponse>::new();
    let mut idx: usize = 0;
    proof {
        assert(out.deep_view() =~= target.take(0));
    }
    while idx < responses.len()
        invariant
            idx <= responses@.len(),
            config.wf(),
            responses.deep_view() == spec_initiating_message_handler(config.deep_view(), mv),
            target == spec_ngap_handler_entrypoint(config.deep_view(), buf@),
            target == responses.deep_view().map_values(
                |r: NGAPResponseView|
                    ByteResponseView { sctp_stream: r.sctp_stream, buf: enc_pdu(r.ngap_pdu) },
            ),
            forall|j: int|
                0 <= j < responses.deep_view().len() ==> wf_pdu(
                    #[trigger] responses.deep_view()[j].ngap_pdu,
                ),
            out.deep_view() == target.take(idx as int),
        decreases responses@.len() - idx,
    {
        let ghost before = out.deep_view();
        // a fresh encode buffer for every response
        let encoded = encode_pdu(&responses[idx].ngap_pdu);
        out.push(ByteResponse { sctp_stream: responses[idx].sctp_stream, buf: encoded });
        proof {
            assert(out.deep_view() =~= before.push(
                ByteResponseView {
                    sctp_stream: responses.deep_view()[idx as int].sctp_stream,
                    buf: enc_pdu(responses.deep_view()[idx as int].ngap_pdu),
                },
            ));
            assert(target.take(idx + 1) =~= target.take(idx as int).push(target[idx as int]));
        }
        idx = idx + 1;
    }
    proof {
        assert(target.take(responses@.len() as int) =~= target);
    }
    out
}

/// What a whole datagram is answered with: nothing when it is shorter than
/// its 4-byte frontend identifier, else each response to its NGAP payload,
/// framed as frontend identifier, stream tag, then the encoded PDU.
pub open spec fn spec_process_message(c: ConfigView, datagram: Seq<u8>) -> Seq<Seq<u8>> {
    if datagram.len() < 4 {
        Seq::empty()
    } else {
        spec_ngap_handler_entrypoint(c, datagram.skip(4)).map_values(
            |b: ByteResponseView| datagram.take(4) + seq![b.sctp_stream] + b.buf,
        )
    }
}

/// Handles one datagram: splits the frontend identifier off, dispatches the
/// NGAP payload, and frames every response for sending. The result depends
/// on nothing but the configuration and this one datagram, so concurrently
/// processed datagrams can never affect each other.
pub fn process_message(config: &CoreKubeConfig, datagram: &Vec<u8>) -> (r: Vec<Vec<u8>>)
    requires
        config.wf(),
    ensures
        r.deep_view() == spec_process_message(config.deep_view(), datagram@),
{
    let empty = Vec::<Vec<u8>>::new();
    proof {
        assert(empty.deep_view() =~= Seq::<Seq<u8>>::empty());
    }
    if datagram.len() < 4 {
        // too short to carry the frontend identifier: dropped
        return empty;
    }
    let frontend_id = slice_range(datagram, 0, 4);
    let payload = suffix_from(datagram, 4);
    let responses = ngap_handler_entrypoint(config, &payload);
    let ghost target = spec_process_message(config.deep_view(), datagram@);
    proof {
        assert(frontend_id@ =~= datagram@.take(4));
    }
    let mut out = Vec::<Vec<u8>>::new();
    let mut idx: usize = 0;
    proof {
        assert(out.deep_view() =~= target.take(0));
    }
    while idx < responses.len()
        invariant
            idx <= responses@.len(),
            frontend_id@ == datagram@.take(4),
            datagram@.len() >= 4,
            responses.deep_view() == spec_ngap_handler_entrypoint(
                config.deep_view(),
                datagram@.skip(4),
            ),
            target == spec_process_message(config.deep_view(), datagram@),
            target == responses.deep_view().map_values(
                |b: ByteResponseView| datagram@.take(4) + seq![b.sctp_stream] + b.buf,
            ),
            out.deep_view() == target.take(idx as int),
        decreases responses@.len() - idx,
    {
        let ghost before = out.deep_view();
        let mut framed = copy_bytes(&frontend_id);
        framed.push(responses[idx].sctp_stream);
        append_bytes(&mut framed, &responses[idx].buf);
        proof {
            assert(framed.deep_view() =~= framed@);
            assert(framed@ =~= datagram@.take(4) + seq![
                responses.deep_view()[idx as int].sctp_stream,
            ] + responses.deep_view()[idx as int].buf);
        }
        out.push(framed);
        proof {
            assert(out.deep_view() =~= before.push(
                datagram@.take(4) + seq![responses.deep_view()[idx as int].sctp_stream]
                    + responses.deep_view()[idx as int].buf,
            ));
            assert(target.take(idx + 1) =~= target.take(idx as int).push(target[idx as int]));
        }
        idx = idx + 1;
    }
    proof {
        assert(target.take(responses@.len() as int) =~= target);
    }
    out
}

/// A datagram shorter than its 4-byte frontend identifier produces no
/// outgoing datagrams at all.
pub proof fn lemma_short_datagram_dropped(c: ConfigView, datagram: Seq<u8>)
    requires
        datagram.len() < 4,
    ensures
        spec_process_message(c, datagram) == Seq::<Seq<u8>>::empty(),
{
}

/// A datagram whose NGAP payload does not decode produces no outgoing
/// datagrams: the failure is confined to that one datagram.
pub proof fn lemma_undecodable_payload_dropped(c: ConfigView, datagram: Seq<u8>)
    requires
        datagram.len() >= 4,
        spec_decode_pdu(datagram.skip(4)) is None,
    ensures
        spec_process_message(c, datagram) == Seq::<Seq<u8>>::empty(),
{
    assert(spec_ngap_handler_entrypoint(c, datagram.skip(4)) =~= Seq::<ByteResponseView>::empty());
    assert(spec_process_message(c, datagram) =~= Seq::<Seq<u8>>::empty());
}

} // verus!
