//! The NGSetup procedure handler: scans the request's information elements
//! for the mandatory tags, rejects requests from anything but a gNB, and
//! answers with the one NGSetupResponse built from the configured AMF
//! identity. A missing or unsupported mandatory element produces no
//! response at all.

use vstd::prelude::*;

use crate::bytes::copy_bytes;
use crate::config::{wf_config, ConfigView, CoreKubeConfig};
use crate::ngap::{
    Criticality, GlobalRanNodeId, GlobalRanNodeIdView, Guami, GuamiView, NgSetupRequest,
    NgSetupRequestView, NgSetupResponse, NgSetupResponseView, NgapPdu, NgapPduView,
    PlmnIdentity, PlmnSupportItem, PlmnSupportItemView, ServedGuamiItem, ServedGuamiItemView,
    SetupRequestIe, SetupRequestIeValue, SetupRequestIeValueView, SetupRequestIeView,
    SetupResponseIe, SetupResponseIeValue, SetupResponseIeValueView, SetupResponseIeView,
    Snssai, SnssaiView, SuccessfulOutcome, SuccessfulOutcomeValue, SuccessfulOutcomeValueView,
    SuccessfulOutcomeView, ID_AMF_NAME, ID_NG_SETUP, ID_PLMN_SUPPORT_LIST,
    ID_RELATIVE_AMF_CAPACITY, ID_SERVED_GUAMI_LIST,
};
use crate::ngap_handlers::response::{NGAPResponse, NGAPResponseView};

verus! {

/// The three-byte half-octet-swapped BCD coding of a PLMN identity: the
/// codes fall into decimal digits, a two-digit network code takes the
/// reserved filler 0xF for its missing third digit, and the digits pack as
/// byte 0 = mcc2 mcc1, byte 1 = mnc1 mcc3, byte 2 = mnc3 mnc2 (high nibble
/// first).
pub open spec fn spec_plmn_identity(mcc: u16, mnc: u16) -> Seq<u8> {
    let mcc1 = mcc as int / 100;
    let mcc2 = (mcc as int / 10) % 10;
    let mcc3 = mcc as int % 10;
    let mnc1 = if mnc as int / 100 == 0 {
        0xF
    } else {
        mnc as int / 100
    };
    let mnc2 = (mnc as int / 10) % 10;
    let mnc3 = mnc as int % 10;
    seq![
        (mcc2 * 16 + mcc1) as u8,
        (mnc1 * 16 + mcc3) as u8,
        (mnc3 * 16 + mnc2) as u8,
    ]
}

/// A PLMN identity encodes to exactly three bytes, whatever the country and
/// network codes.
pub proof fn lemma_plmn_identity_three_bytes(mcc: u16, mnc: u16)
    ensures
        spec_plmn_identity(mcc, mnc).len() == 3,
{
}

/// Packs the configured country and network codes into their wire bytes.
pub fn build_plmn_identity(mcc: u16, mnc: u16) -> (r: PlmnIdentity)
    requires
        mcc <= 999,
        mnc <= 999,
    ensures
        r.deep_view() == spec_plmn_identity(mcc, mnc),
        r.0@.len() == 3,
{
    let mut mnc1: u16 = mnc / 100;
    if mnc1 == 0 {
        // reserved marker: the network code has no third digit
        mnc1 = 0x0F;
    }
    let mnc2: u16 = (mnc / 10) % 10;
    let mnc3: u16 = mnc % 10;

    let mcc1: u16 = mcc / 100;
    let mcc2: u16 = (mcc / 10) % 10;
    let mcc3: u16 = mcc % 10;

    let b0: u8 = (mcc2 * 16 + mcc1) as u8;
    let b1: u8 = (mnc1 * 16 + mcc3) as u8;
    let b2: u8 = (mnc3 * 16 + mnc2) as u8;
    let r = PlmnIdentity(vec![b0, b1, b2]);
    proof {
        assert(r.deep_view() =~= spec_plmn_identity(mcc, mnc));
    }
    r
}

/// The one setup response this core gives: a SuccessfulOutcome for the
/// NGSetup procedure whose four mandatory information elements carry the
/// AMF name, a single served GUAMI built from the configured identity, the
/// relative capacity, and a PLMN support list with the configured slices.
pub open spec fn spec_setup_response(c: ConfigView) -> NgapPduView {
    NgapPduView::SuccessfulOutcome(SuccessfulOutcomeView {
        procedure_code: ID_NG_SETUP,
        criticality: Criticality::Reject,
        value: SuccessfulOutcomeValueView::NgSetup(NgSetupResponseView {
            protocol_ies: seq![
                SetupResponseIeView {
                    id: ID_AMF_NAME,
                    criticality: Criticality::Reject,
                    value: SetupResponseIeValueView::AmfName(c.amf_name),
                },
                SetupResponseIeView {
                    id: ID_SERVED_GUAMI_LIST,
                    criticality: Criticality::Reject,
                    value: SetupResponseIeValueView::ServedGuamiList(
                        seq![
                            ServedGuamiItemView {
                                guami: GuamiView {
                                    plmn_identity: spec_plmn_identity(c.mcc, c.mnc),
                                    amf_region_id: c.amf_region_id,
                                    amf_set_id: c.amf_set_id,
                                    amf_pointer: c.amf_pointer,
                                },
                            },
                        ],
                    ),
                },
                SetupResponseIeView {
                    id: ID_RELATIVE_AMF_CAPACITY,
                    criticality: Criticality::Ignore,
                    value: SetupResponseIeValueView::RelativeAmfCapacity(
                        c.relative_amf_capacity,
                    ),
                },
                SetupResponseIeView {
                    id: ID_PLMN_SUPPORT_LIST,
                    criticality: Criticality::Reject,
                    value: SetupResponseIeValueView::PlmnSupportList(
                        seq![
                            PlmnSupportItemView {
                                plmn_identity: spec_plmn_identity(c.mcc, c.mnc),
                                slice_support_list: seq![SnssaiView { sst: c.sst }],
                            },
                        ],
                    ),
                },
            ],
        }),
    })
}

/// Builds the NGSetupResponse from the configured AMF identity.
pub fn build_setup_response(config: &CoreKubeConfig) -> (r: NgapPdu)
    requires
        config.wf(),
    ensures
        r.deep_view() == spec_setup_response(config.deep_view()),
{
    let r = NgapPdu::SuccessfulOutcome(SuccessfulOutcome {
        procedure_code: ID_NG_SETUP,
        criticality: Criticality::Reject,
        value: SuccessfulOutcomeValue::NgSetup(NgSetupResponse {
            protocol_ies: vec![
                SetupResponseIe {
                    id: ID_AMF_NAME,
                    criticality: Criticality::Reject,
                    value: SetupResponseIeValue::AmfName(copy_bytes(&config.amf_name)),
                },
                SetupResponseIe {
                    id: ID_SERVED_GUAMI_LIST,
                    criticality: Criticality::Reject,
                    value: SetupResponseIeValue::ServedGuamiList(
                        vec![
                            ServedGuamiItem {
                                guami: Guami {
                                    plmn_identity: build_plmn_identity(config.mcc, config.mnc),
                                    amf_region_id: config.amf_region_id,
                                    amf_set_id: config.amf_set_id,
                                    amf_pointer: config.amf_pointer,
                                },
                            },
                        ],
                    ),
                },
                SetupResponseIe {
                    id: ID_RELATIVE_AMF_CAPACITY,
                    criticality: Criticality::Ignore,
                    value: SetupResponseIeValue::RelativeAmfCapacity(
                        config.relative_amf_capacity,
                    ),
                },
                SetupResponseIe {
                    id: ID_PLMN_SUPPORT_LIST,
                    criticality: Criticality::Reject,
                    value: SetupResponseIeValue::PlmnSupportList(
                        vec![
                            PlmnSupportItem {
                                plmn_identity: build_plmn_identity(config.mcc, config.mnc),
                                slice_support_list: vec![
                                    Snssai { sst: copy_bytes(&config.sst) },
                                ],
                            },
                        ],
                    ),
                },
            ],
        }),
    });
    proof {
        assert(r.deep_view() =~~= spec_setup_response(config.deep_view()));
    }
    r
}

/// The information element that wins for a tag is the last entry carrying
/// it: the RAN node identity slot.
pub open spec fn spec_last_ran_node_id(ies: Seq<SetupRequestIeView>) -> Option<
    GlobalRanNodeIdView,
>
    decreases ies.len(),
{
    if ies.len() == 0 {
        None
    } else {
        match ies.last().value {
            SetupRequestIeValueView::GlobalRanNodeId(g) => Some(g),
            _ => spec_last_ran_node_id(ies.drop_last()),
        }
    }
}

/// The last supported-TA-list entry of the request.
pub open spec fn spec_last_supported_ta_list(ies: Seq<SetupRequestIeView>) -> Option<Seq<u8>>
    decreases ies.len(),
{
    if ies.len() == 0 {
        None
    } else {
        match ies.last().value {
            SetupRequestIeValueView::SupportedTaList(t) => Some(t),
            _ => spec_last_supported_ta_list(ies.drop_last()),
        }
    }
}

/// The last default-paging-DRX entry of the request.
pub open spec fn spec_last_paging_drx(ies: Seq<SetupRequestIeView>) -> Option<u8>
    decreases ies.len(),
{
    if ies.len() == 0 {
        None
    } else {
        match ies.last().value {
            SetupRequestIeValueView::DefaultPagingDrx(d) => Some(d),
            _ => spec_last_paging_drx(ies.drop_last()),
        }
    }
}

/// Scans the ordered information elements of an NGSetupRequest and extracts
/// the recognized tags into their slots, the last entry winning per tag.
/// Entries with unrecognized tags are ignored, not an error.
pub fn extract_setup_ies(ies: Vec<SetupRequestIe>) -> (r: (
    Option<GlobalRanNodeId>,
    Option<Vec<u8>>,
    Option<u8>,
))
    ensures
        r.0.deep_view() == spec_last_ran_node_id(ies.deep_view()),
        (match r.1 {
            Some(t) => spec_last_supported_ta_list(ies.deep_view()) == Some(t@),
            None => spec_last_supported_ta_list(ies.deep_view()) is None,
        }),
        r.2 == spec_last_paging_drx(ies.deep_view()),
{
    let ghost orig: Seq<SetupRequestIeView> = ies.deep_view();
    let mut rest = ies;
    let mut global_ran_node_id: Option<GlobalRanNodeId> = None;
    let mut supported_ta_list: Option<Vec<u8>> = None;
    let mut paging_drx: Option<u8> = None;
    while rest.len() > 0
        invariant
            spec_last_ran_node_id(orig) == (match global_ran_node_id {
                Some(g) => Some(g.deep_view()),
                None => spec_last_ran_node_id(rest.deep_view()),
            }),
            spec_last_supported_ta_list(orig) == (match supported_ta_list {
                Some(t) => Some(t@),
                None => spec_last_supported_ta_list(rest.deep_view()),
            }),
            spec_last_paging_drx(orig) == (match paging_drx {
                Some(d) => Some(d),
                None => spec_last_paging_drx(rest.deep_view()),
            }),
        decreases rest.len(),
    {
        let ghost prev = rest.deep_view();
        let ie = rest.pop().unwrap();
        proof {
            assert(prev =~= rest.deep_view().push(ie.deep_view()));
            assert(prev.drop_last() =~= rest.deep_view());
            assert(prev.last() == ie.deep_view());
        }
        match ie.value {
            SetupRequestIeValue::GlobalRanNodeId(g) => {
                if global_ran_node_id.is_none() {
                    global_ran_node_id = Some(g);
                }
            },
            SetupRequestIeValue::SupportedTaList(t) => {
                if supported_ta_list.is_none() {
                    supported_ta_list = Some(t);
                }
            },
            SetupRequestIeValue::DefaultPagingDrx(d) => {
                if paging_drx.is_none() {
                    paging_drx = Some(d);
                }
            },
            SetupRequestIeValue::Unrecognized(_) => {},
        }
    }
    proof {
        assert(rest.deep_view() =~= Seq::<SetupRequestIeView>::empty());
    }
    (global_ran_node_id, supported_ta_list, paging_drx)
}

/// What the setup handler answers: nothing at all when a mandatory element
/// is missing or the RAN node is not a gNB, else exactly one response on
/// stream 0 carrying the setup response built from the configuration.
pub open spec fn spec_handle_setup_request(c: ConfigView, req: NgSetupRequestView) -> Seq<
    NGAPResponseView,
> {
    match spec_last_ran_node_id(req.protocol_ies) {
        None => Seq::empty(),
        Some(g) => match g {
            GlobalRanNodeIdView::GlobalGnbId(_) => {
                if spec_last_supported_ta_list(req.protocol_ies) is None {
                    Seq::empty()
                } else if spec_last_paging_drx(req.protocol_ies) is None {
                    Seq::empty()
                } else {
                    seq![NGAPResponseView { sctp_stream: 0, ngap_pdu: spec_setup_response(c) }]
                }
            },
            _ => Seq::empty(),
        },
    }
}

/// Handles an NGSetupRequest: validates the mandatory information elements
/// and answers with the one setup response, or with nothing.
pub fn handle_setup_request(config: &CoreKubeConfig, ng_setup: NgSetupRequest) -> (r: Vec<
    NGAPResponse,
>)
    requires
        config.wf(),
    ensures
        r.deep_view() == spec_handle_setup_request(config.deep_view(), ng_setup.deep_view()),
{
    let (global_ran_node_id, supported_ta_list, paging_drx) = extract_setup_ies(
        ng_setup.protocol_ies,
    );

    let empty_ok = Vec::<NGAPResponse>::new();
    proof {
        assert(empty_ok.deep_view() =~= Seq::<NGAPResponseView>::empty());
    }

    let g = match global_ran_node_id {
        None => {
            // missing GlobalRANNodeID: drop the request
            return empty_ok;
        },
        Some(g) => g,
    };
    match &g {
        GlobalRanNodeId::GlobalGnbId(_) => {},
        _ => {
            // only the gNB kind of RAN node is supported
            return empty_ok;
        },
    }
    if supported_ta_list.is_none() {
        // missing SupportedTAList: drop the request
        return empty_ok;
    }
    if paging_drx.is_none() {
        // missing DefaultPagingDRX: drop the request
        return empty_ok;
    }

    let mut r = Vec::<NGAPResponse>::new();
    r.push(NGAPResponse { sctp_stream: 0, ngap_pdu: build_setup_response(config) });
    proof {
        assert(r.deep_view() =~= seq![
            NGAPResponseView {
                sctp_stream: 0,
                ngap_pdu: spec_setup_response(config.deep_view()),
            },
        ]);
    }
    r
}

/// The setup response built from a well-formed configuration is itself
/// well-formed, so it can always be encoded: every field fits its wire
/// length, and the four mandatory information elements carry their own
/// tags.
#[verifier::rlimit(100)]
pub proof fn lemma_setup_response_wf(c: ConfigView)
    requires
        wf_config(c),
    ensures
        crate::codec::wf_pdu(spec_setup_response(c)),
{
    let plmn = spec_plmn_identity(c.mcc, c.mnc);
    let gitem = ServedGuamiItemView {
        guami: GuamiView {
            plmn_identity: plmn,
            amf_region_id: c.amf_region_id,
            amf_set_id: c.amf_set_id,
            amf_pointer: c.amf_pointer,
        },
    };
    let gl = seq![gitem];
    let pitem = PlmnSupportItemView {
        plmn_identity: plmn,
        slice_support_list: seq![SnssaiView { sst: c.sst }],
    };
    let pl = seq![pitem];

    let p = spec_setup_response(c);
    let resp = (match p {
        NgapPduView::SuccessfulOutcome(o) => (match o.value {
            SuccessfulOutcomeValueView::NgSetup(r) => r,
            _ => NgSetupResponseView { protocol_ies: Seq::empty() },
        }),
        _ => NgSetupResponseView { protocol_ies: Seq::empty() },
    });
    let ies = resp.protocol_ies;
    assert(ies.len() == 4);

    // the served-GUAMI list encodes to eleven bytes
    assert(gl.skip(1) =~= Seq::<ServedGuamiItemView>::empty());
    assert(crate::codec::enc_guami_items(gl.skip(1)).len() == 0);
    assert(crate::codec::enc_guami_item(gitem).len() == 9);
    assert(crate::codec::enc_guami_items(gl).len() == 9);
    assert(crate::codec::wf_guami_items(gl));
    assert(crate::codec::enc_setup_resp_ie_value(ies[1].value).len() == 11);

    // the PLMN-support list encodes to eleven bytes beyond the slice types
    let sl = pitem.slice_support_list;
    assert(sl.skip(1) =~= Seq::<SnssaiView>::empty());
    assert(crate::codec::enc_snssais(sl.skip(1)).len() == 0);
    assert(crate::codec::enc_snssais(sl).len() == 2 + c.sst.len());
    assert(crate::codec::wf_snssais(sl));
    assert(pl.skip(1) =~= Seq::<PlmnSupportItemView>::empty());
    assert(crate::codec::enc_plmn_support_items(pl.skip(1)).len() == 0);
    assert(crate::codec::enc_plmn_support_item(pitem).len() == 9 + c.sst.len());
    assert(crate::codec::enc_plmn_support_items(pl).len() == 9 + c.sst.len());
    assert(crate::codec::wf_plmn_support_items(pl));
    assert(crate::codec::enc_setup_resp_ie_value(ies[3].value).len() == 11 + c.sst.len());

    // each of the four information elements is well-formed
    assert(crate::codec::wf_setup_resp_ie(ies[0]));
    assert(crate::codec::wf_setup_resp_ie(ies[1]));
    assert(crate::codec::wf_setup_resp_ie(ies[2]));
    assert(crate::codec::wf_setup_resp_ie(ies[3]));
    assert(crate::codec::wf_setup_resp_ies(ies));

    // the whole response fits the 16-bit value length of the outer message
    assert(ies.skip(4) =~= Seq::<SetupResponseIeView>::empty());
    assert(crate::codec::enc_setup_resp_ies(ies.skip(4)).len() == 0);
    assert(ies.skip(3).skip(1) =~= ies.skip(4));
    assert(ies.skip(3)[0] == ies[3]);
    assert(crate::codec::enc_setup_resp_ies(ies.skip(3)).len() == 16 + c.sst.len());
    assert(ies.skip(2).skip(1) =~= ies.skip(3));
    assert(ies.skip(2)[0] == ies[2]);
    assert(crate::codec::enc_setup_resp_ies(ies.skip(2)).len() == 22 + c.sst.len());
    assert(ies.skip(1).skip(1) =~= ies.skip(2));
    assert(ies.skip(1)[0] == ies[1]);
    assert(crate::codec::enc_setup_resp_ies(ies.skip(1)).len() == 38 + c.sst.len());
    assert(crate::codec::enc_setup_resp_ies(ies).len() == 43 + c.amf_name.len() + c.sst.len());
    assert(crate::codec::enc_setup_response(resp).len() == 45 + c.amf_name.len() + c.sst.len());
}

/// The setup response always carries its four mandatory information
/// elements, under their own tags and in order: the AMF name, the served
/// GUAMI list, the relative capacity, and the PLMN support list. The
/// builder cannot be invoked with any of them absent.
pub proof fn lemma_setup_response_complete(c: ConfigView)
    ensures
        spec_setup_response(c) matches NgapPduView::SuccessfulOutcome(o)
            && o.value matches SuccessfulOutcomeValueView::NgSetup(resp)
            && resp.protocol_ies.len() == 4
            && resp.protocol_ies[0].id == ID_AMF_NAME
            && resp.protocol_ies[1].id == ID_SERVED_GUAMI_LIST
            && resp.protocol_ies[2].id == ID_RELATIVE_AMF_CAPACITY
            && resp.protocol_ies[3].id == ID_PLMN_SUPPORT_LIST,
{
}

/// Every PDU the setup handler can produce survives the codec round trip:
/// decoding its encoding gives the same PDU back.
pub proof fn lemma_setup_response_round_trip(c: ConfigView)
    requires
        wf_config(c),
    ensures
        crate::codec::spec_decode_pdu(crate::codec::enc_pdu(spec_setup_response(c))) == Some(
            spec_setup_response(c),
        ),
{
    lemma_setup_response_wf(c);
    crate::codec::lemma_pdu_round_trip(spec_setup_response(c));
}

/// A request whose elements never carry a supported-TA list is answered
/// with nothing, whatever else it carries.
pub proof fn lemma_setup_missing_ta_list(c: ConfigView, req: NgSetupRequestView)
    requires
        spec_last_supported_ta_list(req.protocol_ies) is None,
    ensures
        spec_handle_setup_request(c, req) == Seq::<NGAPResponseView>::empty(),
{
}

/// A request whose RAN node identity is not the gNB kind is answered with
/// nothing.
pub proof fn lemma_setup_non_gnb(c: ConfigView, req: NgSetupRequestView)
    requires
        (match spec_last_ran_node_id(req.protocol_ies) {
            Some(g) => !(g matches GlobalRanNodeIdView::GlobalGnbId(_)),
            None => false,
        }),
    ensures
        spec_handle_setup_request(c, req) == Seq::<NGAPResponseView>::empty(),
{
}

/// A request carrying all three mandatory elements, with the RAN node
/// identity of the gNB kind, is answered with exactly one response, on
/// stream 0, whose PDU is the SuccessfulOutcome for the NGSetup procedure.
pub proof fn lemma_setup_complete_request(c: ConfigView, req: NgSetupRequestView)
    requires
        spec_last_ran_node_id(req.protocol_ies) matches Some(
            GlobalRanNodeIdView::GlobalGnbId(_),
        ),
        spec_last_supported_ta_list(req.protocol_ies) is Some,
        spec_last_paging_drx(req.protocol_ies) is Some,
    ensures
        spec_handle_setup_request(c, req) == seq![
            NGAPResponseView { sctp_stream: 0, ngap_pdu: spec_setup_response(c) },
        ],
        spec_handle_setup_request(c, req).len() == 1,
        spec_handle_setup_request(c, req)[0].ngap_pdu matches NgapPduView::SuccessfulOutcome(o)
            && o.procedure_code == ID_NG_SETUP,
{
}

} // verus!
