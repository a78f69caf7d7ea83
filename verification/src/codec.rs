//! The wire codec of the PDU model: a deterministic, length-prefixed byte
//! encoding of the protocol-data-unit tree, with a decoder proved to invert
//! it. Every multi-byte integer is big-endian; every variable-sized field
//! carries a 16-bit length; every procedure value and information-element
//! value is length-delimited, so elements and procedures that are not
//! recognized are carried through as raw bytes instead of failing the whole
//! message.

use vstd::prelude::*;

use crate::ngap::{
    Guami, PlmnIdentity,
    GlobalRanNodeId, InitialUeIe, InitialUeIeValue, InitialUeMessage, InitiatingMessage,
    InitiatingMessageValue, NgSetupRequest, NgSetupResponse, NgapPdu, PlmnSupportItem,
    ServedGuamiItem, SetupRequestIe, SetupRequestIeValue, SetupResponseIe, SetupResponseIeValue,
    Snssai, SuccessfulOutcome, SuccessfulOutcomeValue, UnsuccessfulOutcome,
    UplinkNasTransport, UserLocationInformation,
    Criticality, GlobalRanNodeIdView, GuamiView, InitialUeIeValueView, InitialUeIeView,
    InitialUeMessageView, NgSetupRequestView, NgSetupResponseView, PlmnSupportItemView,
    ServedGuamiItemView, SetupRequestIeValueView, SetupRequestIeView, SetupResponseIeValueView,
    InitiatingMessageValueView, InitiatingMessageView, NgapPduView, SuccessfulOutcomeValueView,
    SuccessfulOutcomeView, UnsuccessfulOutcomeView, UplinkNasTransportView,
    ID_INITIAL_UE_MESSAGE, ID_NG_SETUP, ID_UPLINK_NAS_TRANSPORT,
    SetupResponseIeView, SnssaiView, UserLocationInformationView, ID_AMF_NAME,
    ID_DEFAULT_PAGING_DRX, ID_GLOBAL_RAN_NODE_ID, ID_NAS_PDU, ID_PLMN_SUPPORT_LIST,
    ID_RAN_UE_NGAP_ID, ID_RELATIVE_AMF_CAPACITY, ID_SERVED_GUAMI_LIST, ID_SUPPORTED_TA_LIST,
    ID_USER_LOCATION_INFORMATION,
};

verus! {

// ---------------------------------------------------------------------------
// Sequence plumbing shared by the inversion proofs.
// ---------------------------------------------------------------------------

/// Two skips compose into one.
pub proof fn lemma_skip_of_skip(s: Seq<u8>, a: int, b: int)
    requires
        0 <= a,
        0 <= b,
        a + b <= s.len(),
    ensures
        s.skip(a).skip(b) == s.skip(a + b),
{
    assert(s.skip(a).skip(b) =~= s.skip(a + b));
}

// ---------------------------------------------------------------------------
// Primitive fields: big-endian integers, length-prefixed byte strings,
// criticality codes.
// ---------------------------------------------------------------------------

/// Big-endian bytes of a 16-bit integer.
pub open spec fn enc_u16(x: u16) -> Seq<u8> {
    seq![(x as int / 256) as u8, (x as int % 256) as u8]
}

/// Reads a big-endian 16-bit integer.
pub open spec fn dec_u16(s: Seq<u8>) -> Option<(u16, int)> {
    if s.len() >= 2 {
        Some((((s[0] as int) * 256 + (s[1] as int)) as u16, 2int))
    } else {
        None
    }
}

#[verifier::spinoff_prover]
pub proof fn lemma_dec_enc_u16(x: u16, tail: Seq<u8>)
    ensures
        dec_u16(enc_u16(x) + tail) == Some((x, 2int)),
{
    let s = enc_u16(x) + tail;
    assert(s[0] == (x as int / 256) as u8);
    assert(s[1] == (x as int % 256) as u8);
}

/// Big-endian bytes of a 32-bit integer.
pub open spec fn enc_u32(x: u32) -> Seq<u8> {
    seq![
        (x as int / 0x1000000) as u8,
        ((x as int / 0x10000) % 256) as u8,
        ((x as int / 256) % 256) as u8,
        (x as int % 256) as u8,
    ]
}

/// Reads a big-endian 32-bit integer.
pub open spec fn dec_u32(s: Seq<u8>) -> Option<(u32, int)> {
    if s.len() >= 4 {
        Some((((s[0] as int) * 0x1000000 + (s[1] as int) * 0x10000 + (s[2] as int) * 256 + (
        s[3] as int)) as u32, 4int))
    } else {
        None
    }
}

#[verifier::spinoff_prover]
pub proof fn lemma_dec_enc_u32(x: u32, tail: Seq<u8>)
    ensures
        dec_u32(enc_u32(x) + tail) == Some((x, 4int)),
{
    let s = enc_u32(x) + tail;
    assert(s[0] == (x as int / 0x1000000) as u8);
    assert(s[1] == ((x as int / 0x10000) % 256) as u8);
    assert(s[2] == ((x as int / 256) % 256) as u8);
    assert(s[3] == (x as int % 256) as u8);
    assert((s[0] as int) * 0x1000000 + (s[1] as int) * 0x10000 + (s[2] as int) * 256 + (
    s[3] as int) == x as int) by {
        assert(x as int == (x as int / 0x1000000) * 0x1000000 + ((x as int / 0x10000) % 256)
            * 0x10000 + ((x as int / 256) % 256) * 256 + x as int % 256) by (nonlinear_arith);
    }
}

/// A byte string, prefixed with its 16-bit length.
pub open spec fn enc_bytes(b: Seq<u8>) -> Seq<u8> {
    enc_u16(b.len() as u16) + b
}

/// Reads a length-prefixed byte string.
pub open spec fn dec_bytes(s: Seq<u8>) -> Option<(Seq<u8>, int)> {
    match dec_u16(s) {
        None => None,
        Some((n, _)) => if s.len() >= 2 + n {
            Some((s.subrange(2, 2 + n), 2 + n))
        } else {
            None
        },
    }
}

#[verifier::spinoff_prover]
pub proof fn lemma_dec_enc_bytes(b: Seq<u8>, tail: Seq<u8>)
    requires
        b.len() <= 0xFFFF,
    ensures
        dec_bytes(enc_bytes(b) + tail) == Some((b, 2 + b.len() as int)),
{
    let s = enc_bytes(b) + tail;
    assert(enc_bytes(b) + tail =~= enc_u16(b.len() as u16) + (b + tail));
    lemma_dec_enc_u16(b.len() as u16, b + tail);
    assert(s.subrange(2, 2 + b.len() as int) =~= b);
}

/// Wire code of a criticality marker.
pub open spec fn crit_code(c: Criticality) -> u8 {
    match c {
        Criticality::Reject => 0,
        Criticality::Ignore => 1,
        Criticality::Notify => 2,
    }
}

/// Reads a criticality marker.
pub open spec fn dec_crit(s: Seq<u8>) -> Option<(Criticality, int)> {
    if s.len() >= 1 {
        if s[0] == 0 {
            Some((Criticality::Reject, 1int))
        } else if s[0] == 1 {
            Some((Criticality::Ignore, 1int))
        } else if s[0] == 2 {
            Some((Criticality::Notify, 1int))
        } else {
            None
        }
    } else {
        None
    }
}

#[verifier::spinoff_prover]
pub proof fn lemma_dec_enc_crit(c: Criticality, tail: Seq<u8>)
    ensures
        dec_crit(seq![crit_code(c)] + tail) == Some((c, 1int)),
{
}

// ---------------------------------------------------------------------------
// Request side: the RAN node identity and user location choices, the
// information elements of NGSetupRequest and InitialUEMessage, and the two
// messages themselves.
// ---------------------------------------------------------------------------

/// A RAN node identity: a one-byte choice tag, then the kind's raw value
/// bytes, length-prefixed.
pub open spec fn enc_ran_node_id(g: GlobalRanNodeIdView) -> Seq<u8> {
    match g {
        GlobalRanNodeIdView::GlobalGnbId(b) => seq![0u8] + enc_bytes(b),
        GlobalRanNodeIdView::GlobalNgEnbId(b) => seq![1u8] + enc_bytes(b),
        GlobalRanNodeIdView::GlobalN3IwfId(b) => seq![2u8] + enc_bytes(b),
    }
}

pub open spec fn wf_ran_node_id(g: GlobalRanNodeIdView) -> bool {
    match g {
        GlobalRanNodeIdView::GlobalGnbId(b) => b.len() <= 0xFFFF,
        GlobalRanNodeIdView::GlobalNgEnbId(b) => b.len() <= 0xFFFF,
        GlobalRanNodeIdView::GlobalN3IwfId(b) => b.len() <= 0xFFFF,
    }
}

pub open spec fn dec_ran_node_id(s: Seq<u8>) -> Option<(GlobalRanNodeIdView, int)> {
    if s.len() >= 1 {
        match dec_bytes(s.skip(1)) {
            None => None,
            Some((b, n)) => if s[0] == 0 {
                Some((GlobalRanNodeIdView::GlobalGnbId(b), 1 + n))
            } else if s[0] == 1 {
                Some((GlobalRanNodeIdView::GlobalNgEnbId(b), 1 + n))
            } else if s[0] == 2 {
                Some((GlobalRanNodeIdView::GlobalN3IwfId(b), 1 + n))
            } else {
                None
            },
        }
    } else {
        None
    }
}

#[verifier::rlimit(100)]
#[verifier::spinoff_prover]
pub proof fn lemma_dec_enc_ran_node_id(g: GlobalRanNodeIdView, tail: Seq<u8>)
    requires
        wf_ran_node_id(g),
    ensures
        dec_ran_node_id(enc_ran_node_id(g) + tail) == Some((g, enc_ran_node_id(g).len() as int)),
{
    let s = enc_ran_node_id(g) + tail;
    match g {
        GlobalRanNodeIdView::GlobalGnbId(b) => {
            assert(dec_bytes(s.skip(1)) == Some((b, 2 + b.len() as int))) by {
                assert(s.skip(1) =~= enc_bytes(b) + tail);
                lemma_dec_enc_bytes(b, tail);
            }
            assert(s[0] == 0u8);
        },
        GlobalRanNodeIdView::GlobalNgEnbId(b) => {
            assert(dec_bytes(s.skip(1)) == Some((b, 2 + b.len() as int))) by {
                assert(s.skip(1) =~= enc_bytes(b) + tail);
                lemma_dec_enc_bytes(b, tail);
            }
            assert(s[0] == 1u8);
        },
        GlobalRanNodeIdView::GlobalN3IwfId(b) => {
            assert(dec_bytes(s.skip(1)) == Some((b, 2 + b.len() as int))) by {
                assert(s.skip(1) =~= enc_bytes(b) + tail);
                lemma_dec_enc_bytes(b, tail);
            }
            assert(s[0] == 2u8);
        },
    }
}

/// A user location: a one-byte choice tag, then the kind's raw value bytes,
/// length-prefixed.
pub open spec fn enc_user_location(u: UserLocationInformationView) -> Seq<u8> {
    match u {
        UserLocationInformationView::Nr(b) => seq![0u8] + enc_bytes(b),
        UserLocationInformationView::Eutra(b) => seq![1u8] + enc_bytes(b),
        UserLocationInformationView::N3iwf(b) => seq![2u8] + enc_bytes(b),
    }
}

pub open spec fn wf_user_location(u: UserLocationInformationView) -> bool {
    match u {
        UserLocationInformationView::Nr(b) => b.len() <= 0xFFFF,
        UserLocationInformationView::Eutra(b) => b.len() <= 0xFFFF,
        UserLocationInformationView::N3iwf(b) => b.len() <= 0xFFFF,
    }
}

pub open spec fn dec_user_location(s: Seq<u8>) -> Option<(UserLocationInformationView, int)> {
    if s.len() >= 1 {
        match dec_bytes(s.skip(1)) {
            None => None,
            Some((b, n)) => if s[0] == 0 {
                Some((UserLocationInformationView::Nr(b), 1 + n))
            } else if s[0] == 1 {
                Some((UserLocationInformationView::Eutra(b), 1 + n))
            } else if s[0] == 2 {
                Some((UserLocationInformationView::N3iwf(b), 1 + n))
            } else {
                None
            },
        }
    } else {
        None
    }
}

#[verifier::rlimit(100)]
#[verifier::spinoff_prover]
pub proof fn lemma_dec_enc_user_location(u: UserLocationInformationView, tail: Seq<u8>)
    requires
        wf_user_location(u),
    ensures
        dec_user_location(enc_user_location(u) + tail) == Some((u, enc_user_location(u).len() as int)),
{
    let s = enc_user_location(u) + tail;
    match u {
        UserLocationInformationView::Nr(b) => {
            assert(dec_bytes(s.skip(1)) == Some((b, 2 + b.len() as int))) by {
                assert(s.skip(1) =~= enc_bytes(b) + tail);
                lemma_dec_enc_bytes(b, tail);
            }
            assert(s[0] == 0u8);
        },
        UserLocationInformationView::Eutra(b) => {
            assert(dec_bytes(s.skip(1)) == Some((b, 2 + b.len() as int))) by {
                assert(s.skip(1) =~= enc_bytes(b) + tail);
                lemma_dec_enc_bytes(b, tail);
            }
            assert(s[0] == 1u8);
        },
        UserLocationInformationView::N3iwf(b) => {
            assert(dec_bytes(s.skip(1)) == Some((b, 2 + b.len() as int))) by {
                assert(s.skip(1) =~= enc_bytes(b) + tail);
                lemma_dec_enc_bytes(b, tail);
            }
            assert(s[0] == 2u8);
        },
    }
}

/// The value bytes of one NGSetupRequest information element, without the
/// length prefix the entry carries around them.
pub open spec fn enc_setup_req_ie_value(v: SetupRequestIeValueView) -> Seq<u8> {
    match v {
        SetupRequestIeValueView::GlobalRanNodeId(g) => enc_ran_node_id(g),
        SetupRequestIeValueView::SupportedTaList(b) => b,
        SetupRequestIeValueView::DefaultPagingDrx(d) => seq![d],
        SetupRequestIeValueView::Unrecognized(b) => b,
    }
}

/// An entry is well-formed when its tag agrees with its payload kind and the
/// payload fits its 16-bit length field. An unrecognized payload never
/// carries a recognized tag.
pub open spec fn wf_setup_req_ie(ie: SetupRequestIeView) -> bool {
    &&& (match ie.value {
        SetupRequestIeValueView::GlobalRanNodeId(g) => ie.id == ID_GLOBAL_RAN_NODE_ID
            && wf_ran_node_id(g),
        SetupRequestIeValueView::SupportedTaList(b) => ie.id == ID_SUPPORTED_TA_LIST,
        SetupRequestIeValueView::DefaultPagingDrx(_) => ie.id == ID_DEFAULT_PAGING_DRX,
        SetupRequestIeValueView::Unrecognized(b) => ie.id != ID_GLOBAL_RAN_NODE_ID && ie.id
            != ID_SUPPORTED_TA_LIST && ie.id != ID_DEFAULT_PAGING_DRX,
    })
    &&& enc_setup_req_ie_value(ie.value).len() <= 0xFFFF
}

/// One NGSetupRequest entry: tag, criticality, then the length-prefixed
/// value bytes.
pub open spec fn enc_setup_req_ie(ie: SetupRequestIeView) -> Seq<u8> {
    enc_u16(ie.id) + seq![crit_code(ie.criticality)] + enc_bytes(enc_setup_req_ie_value(ie.value))
}

/// Interprets the value bytes of an entry by its tag. A recognized tag must
/// parse to its kind, consuming the value bytes exactly; any other tag keeps
/// the raw bytes as an unrecognized entry.
pub open spec fn dec_setup_req_ie_value(id: u16, vb: Seq<u8>) -> Option<SetupRequestIeValueView> {
    if id == ID_GLOBAL_RAN_NODE_ID {
        match dec_ran_node_id(vb) {
            Some((g, n)) => if n == vb.len() {
                Some(SetupRequestIeValueView::GlobalRanNodeId(g))
            } else {
                None
            },
            None => None,
        }
    } else if id == ID_SUPPORTED_TA_LIST {
        Some(SetupRequestIeValueView::SupportedTaList(vb))
    } else if id == ID_DEFAULT_PAGING_DRX {
        if vb.len() == 1 {
            Some(SetupRequestIeValueView::DefaultPagingDrx(vb[0]))
        } else {
            None
        }
    } else {
        Some(SetupRequestIeValueView::Unrecognized(vb))
    }
}

pub open spec fn dec_setup_req_ie(s: Seq<u8>) -> Option<(SetupRequestIeView, int)> {
    match dec_u16(s) {
        None => None,
        Some((id, _)) => match dec_crit(s.skip(2)) {
            None => None,
            Some((c, _)) => match dec_bytes(s.skip(3)) {
                None => None,
                Some((vb, m)) => match dec_setup_req_ie_value(id, vb) {
                    None => None,
                    Some(v) => Some(
                        (SetupRequestIeView { id, criticality: c, value: v }, 3 + m),
                    ),
                },
            },
        },
    }
}

#[verifier::rlimit(100)]
#[verifier::spinoff_prover]
pub proof fn lemma_dec_enc_setup_req_ie(ie: SetupRequestIeView, tail: Seq<u8>)
    requires
        wf_setup_req_ie(ie),
    ensures
        dec_setup_req_ie(enc_setup_req_ie(ie) + tail) == Some(
            (ie, enc_setup_req_ie(ie).len() as int),
        ),
{
    let vb = enc_setup_req_ie_value(ie.value);
    let s = enc_setup_req_ie(ie) + tail;
    assert(s =~= enc_u16(ie.id) + (seq![crit_code(ie.criticality)] + (enc_bytes(vb) + tail)));
    lemma_dec_enc_u16(ie.id, seq![crit_code(ie.criticality)] + (enc_bytes(vb) + tail));
    assert(s.skip(2) =~= seq![crit_code(ie.criticality)] + (enc_bytes(vb) + tail));
    lemma_dec_enc_crit(ie.criticality, enc_bytes(vb) + tail);
    assert(s.skip(3) =~= enc_bytes(vb) + tail);
    lemma_dec_enc_bytes(vb, tail);
    match ie.value {
        SetupRequestIeValueView::GlobalRanNodeId(g) => {
            assert(vb =~= enc_ran_node_id(g) + Seq::<u8>::empty());
            lemma_dec_enc_ran_node_id(g, Seq::<u8>::empty());
        },
        SetupRequestIeValueView::SupportedTaList(_) => {},
        SetupRequestIeValueView::DefaultPagingDrx(_) => {},
        SetupRequestIeValueView::Unrecognized(_) => {},
    }
}

/// The entries of a request, one after the other.
pub open spec fn enc_setup_req_ies(ies: Seq<SetupRequestIeView>) -> Seq<u8>
    decreases ies.len(),
{
    if ies.len() == 0 {
        Seq::empty()
    } else {
        enc_setup_req_ie(ies[0]) + enc_setup_req_ies(ies.skip(1))
    }
}

pub open spec fn wf_setup_req_ies(ies: Seq<SetupRequestIeView>) -> bool {
    forall|i: int| 0 <= i < ies.len() ==> wf_setup_req_ie(#[trigger] ies[i])
}

/// Reads exactly `n` entries.
pub open spec fn dec_setup_req_ies(s: Seq<u8>, n: int) -> Option<(Seq<SetupRequestIeView>, int)>
    decreases n,
{
    if n <= 0 {
        Some((Seq::empty(), 0int))
    } else {
        match dec_setup_req_ie(s) {
            None => None,
            Some((ie, k)) => match dec_setup_req_ies(s.skip(k), n - 1) {
                None => None,
                Some((rest, m)) => Some((seq![ie] + rest, k + m)),
            },
        }
    }
}

#[verifier::rlimit(100)]
#[verifier::spinoff_prover]
pub proof fn lemma_dec_enc_setup_req_ies(items: Seq<SetupRequestIeView>, tail: Seq<u8>)
    requires
        wf_setup_req_ies(items),
    ensures
        dec_setup_req_ies(enc_setup_req_ies(items) + tail, items.len() as int) == Some(
            (items, enc_setup_req_ies(items).len() as int),
        ),
    decreases items.len(),
{
    if items.len() == 0 {
        assert(items =~= Seq::<SetupRequestIeView>::empty());
    } else {
        let head = items[0];
        let rest = items.skip(1);
        let e_head = enc_setup_req_ie(head);
        let e_rest = enc_setup_req_ies(rest);
        let s = enc_setup_req_ies(items) + tail;
        let k = e_head.len() as int;
        assert(wf_setup_req_ie(head));
        assert(wf_setup_req_ies(rest)) by {
            assert(forall|i: int|
                0 <= i < rest.len() ==> #[trigger] rest[i] == items[i + 1] && wf_setup_req_ie(
                    items[i + 1],
                ));
        }
        assert(dec_setup_req_ie(s) == Some((head, k))) by {
            assert(s =~= e_head + (e_rest + tail));
            lemma_dec_enc_setup_req_ie(head, e_rest + tail);
        }
        assert(dec_setup_req_ies(s.skip(k), items.len() - 1) == Some((rest, e_rest.len() as int))) by {
            assert(s.skip(k) =~= e_rest + tail);
            lemma_dec_enc_setup_req_ies(rest, tail);
        }
        assert(seq![head] + rest =~= items);
        assert(enc_setup_req_ies(items).len() == k + e_rest.len());
    }
}

/// An NGSetupRequest: the entry count, then the entries.
pub open spec fn enc_setup_request(m: NgSetupRequestView) -> Seq<u8> {
    enc_u16(m.protocol_ies.len() as u16) + enc_setup_req_ies(m.protocol_ies)
}

pub open spec fn wf_setup_request(m: NgSetupRequestView) -> bool {
    &&& m.protocol_ies.len() <= 0xFFFF
    &&& wf_setup_req_ies(m.protocol_ies)
}

pub open spec fn dec_setup_request(s: Seq<u8>) -> Option<(NgSetupRequestView, int)> {
    match dec_u16(s) {
        None => None,
        Some((cnt, _)) => match dec_setup_req_ies(s.skip(2), cnt as int) {
            None => None,
            Some((ies, m)) => Some((NgSetupRequestView { protocol_ies: ies }, 2 + m)),
        },
    }
}

#[verifier::spinoff_prover]
pub proof fn lemma_dec_enc_setup_request(m: NgSetupRequestView, tail: Seq<u8>)
    requires
        wf_setup_request(m),
    ensures
        dec_setup_request(enc_setup_request(m) + tail) == Some(
            (m, enc_setup_request(m).len() as int),
        ),
{
    let s = enc_setup_request(m) + tail;
    assert(s =~= enc_u16(m.protocol_ies.len() as u16) + (enc_setup_req_ies(m.protocol_ies)
        + tail));
    lemma_dec_enc_u16(m.protocol_ies.len() as u16, enc_setup_req_ies(m.protocol_ies) + tail);
    assert(s.skip(2) =~= enc_setup_req_ies(m.protocol_ies) + tail);
    lemma_dec_enc_setup_req_ies(m.protocol_ies, tail);
}

/// The value bytes of one InitialUEMessage information element.
pub open spec fn enc_initial_ue_ie_value(v: InitialUeIeValueView) -> Seq<u8> {
    match v {
        InitialUeIeValueView::RanUeNgapId(x) => enc_u32(x),
        InitialUeIeValueView::NasPdu(b) => b,
        InitialUeIeValueView::UserLocationInformation(u) => enc_user_location(u),
        InitialUeIeValueView::Unrecognized(b) => b,
    }
}

pub open spec fn wf_initial_ue_ie(ie: InitialUeIeView) -> bool {
    &&& (match ie.value {
        InitialUeIeValueView::RanUeNgapId(_) => ie.id == ID_RAN_UE_NGAP_ID,
        InitialUeIeValueView::NasPdu(b) => ie.id == ID_NAS_PDU,
        InitialUeIeValueView::UserLocationInformation(u) => ie.id
            == ID_USER_LOCATION_INFORMATION && wf_user_location(u),
        InitialUeIeValueView::Unrecognized(b) => ie.id != ID_RAN_UE_NGAP_ID && ie.id
            != ID_NAS_PDU && ie.id != ID_USER_LOCATION_INFORMATION,
    })
    &&& enc_initial_ue_ie_value(ie.value).len() <= 0xFFFF
}

/// One InitialUEMessage entry: tag, criticality, then the length-prefixed
/// value bytes.
pub open spec fn enc_initial_ue_ie(ie: InitialUeIeView) -> Seq<u8> {
    enc_u16(ie.id) + seq![crit_code(ie.criticality)] + enc_bytes(enc_initial_ue_ie_value(ie.value))
}

pub open spec fn dec_initial_ue_ie_value(id: u16, vb: Seq<u8>) -> Option<InitialUeIeValueView> {
    if id == ID_RAN_UE_NGAP_ID {
        match dec_u32(vb) {
            Some((x, n)) => if n == vb.len() {
                Some(InitialUeIeValueView::RanUeNgapId(x))
            } else {
                None
            },
            None => None,
        }
    } else if id == ID_NAS_PDU {
        Some(InitialUeIeValueView::NasPdu(vb))
    } else if id == ID_USER_LOCATION_INFORMATION {
        match dec_user_location(vb) {
            Some((u, n)) => if n == vb.len() {
                Some(InitialUeIeValueView::UserLocationInformation(u))
            } else {
                None
            },
            None => None,
        }
    } else {
        Some(InitialUeIeValueView::Unrecognized(vb))
    }
}

pub open spec fn dec_initial_ue_ie(s: Seq<u8>) -> Option<(InitialUeIeView, int)> {
    match dec_u16(s) {
        None => None,
        Some((id, _)) => match dec_crit(s.skip(2)) {
            None => None,
            Some((c, _)) => match dec_bytes(s.skip(3)) {
                None => None,
                Some((vb, m)) => match dec_initial_ue_ie_value(id, vb) {
                    None => None,
                    Some(v) => Some((InitialUeIeView { id, criticality: c, value: v }, 3 + m)),
                },
            },
        },
    }
}

#[verifier::spinoff_prover]
pub proof fn lemma_dec_enc_initial_ue_ie_value(ie: InitialUeIeView)
    requires
        wf_initial_ue_ie(ie),
    ensures
        dec_initial_ue_ie_value(ie.id, enc_initial_ue_ie_value(ie.value)) == Some(ie.value),
{
    let vb = enc_initial_ue_ie_value(ie.value);
    match ie.value {
        InitialUeIeValueView::RanUeNgapId(x) => {
            assert(vb =~= enc_u32(x) + Seq::<u8>::empty());
            lemma_dec_enc_u32(x, Seq::<u8>::empty());
        },
        InitialUeIeValueView::NasPdu(_) => {},
        InitialUeIeValueView::UserLocationInformation(u) => {
            assert(vb =~= enc_user_location(u) + Seq::<u8>::empty());
            lemma_dec_enc_user_location(u, Seq::<u8>::empty());
        },
        InitialUeIeValueView::Unrecognized(_) => {},
    }
}

#[verifier::rlimit(100)]
#[verifier::spinoff_prover]
pub proof fn lemma_dec_enc_initial_ue_ie(ie: InitialUeIeView, tail: Seq<u8>)
    requires
        wf_initial_ue_ie(ie),
    ensures
        dec_initial_ue_ie(enc_initial_ue_ie(ie) + tail) == Some(
            (ie, enc_initial_ue_ie(ie).len() as int),
        ),
{
    let vb = enc_initial_ue_ie_value(ie.value);
    let s = enc_initial_ue_ie(ie) + tail;
    assert(dec_u16(s) == Some((ie.id, 2int))) by {
        assert(s =~= enc_u16(ie.id) + (seq![crit_code(ie.criticality)] + (enc_bytes(vb) + tail)));
        lemma_dec_enc_u16(ie.id, seq![crit_code(ie.criticality)] + (enc_bytes(vb) + tail));
    }
    assert(dec_crit(s.skip(2)) == Some((ie.criticality, 1int))) by {
        assert(s.skip(2) =~= seq![crit_code(ie.criticality)] + (enc_bytes(vb) + tail));
        lemma_dec_enc_crit(ie.criticality, enc_bytes(vb) + tail);
    }
    assert(dec_bytes(s.skip(3)) == Some((vb, 2 + vb.len() as int))) by {
        assert(s.skip(3) =~= enc_bytes(vb) + tail);
        lemma_dec_enc_bytes(vb, tail);
    }
    lemma_dec_enc_initial_ue_ie_value(ie);
    assert(enc_initial_ue_ie(ie).len() == 5 + vb.len());
}

pub open spec fn enc_initial_ue_ies(ies: Seq<InitialUeIeView>) -> Seq<u8>
    decreases ies.len(),
{
    if ies.len() == 0 {
        Seq::empty()
    } else {
        enc_initial_ue_ie(ies[0]) + enc_initial_ue_ies(ies.skip(1))
    }
}

pub open spec fn wf_initial_ue_ies(ies: Seq<InitialUeIeView>) -> bool {
    forall|i: int| 0 <= i < ies.len() ==> wf_initial_ue_ie(#[trigger] ies[i])
}

pub open spec fn dec_initial_ue_ies(s: Seq<u8>, n: int) -> Option<(Seq<InitialUeIeView>, int)>
    decreases n,
{
    if n <= 0 {
        Some((Seq::empty(), 0int))
    } else {
        match dec_initial_ue_ie(s) {
            None => None,
            Some((ie, k)) => match dec_initial_ue_ies(s.skip(k), n - 1) {
                None => None,
                Some((rest, m)) => Some((seq![ie] + rest, k + m)),
            },
        }
    }
}

#[verifier::rlimit(100)]
#[verifier::spinoff_prover]
pub proof fn lemma_dec_enc_initial_ue_ies(items: Seq<InitialUeIeView>, tail: Seq<u8>)
    requires
        wf_initial_ue_ies(items),
    ensures
        dec_initial_ue_ies(enc_initial_ue_ies(items) + tail, items.len() as int) == Some(
            (items, enc_initial_ue_ies(items).len() as int),
        ),
    decreases items.len(),
{
    if items.len() == 0 {
        assert(items =~= Seq::<InitialUeIeView>::empty());
    } else {
        let head = items[0];
        let rest = items.skip(1);
        let e_head = enc_initial_ue_ie(head);
        let e_rest = enc_initial_ue_ies(rest);
        let s = enc_initial_ue_ies(items) + tail;
        let k = e_head.len() as int;
        assert(wf_initial_ue_ie(head));
        assert(wf_initial_ue_ies(rest)) by {
            assert(forall|i: int|
                0 <= i < rest.len() ==> #[trigger] rest[i] == items[i + 1] && wf_initial_ue_ie(
                    items[i + 1],
                ));
        }
        assert(dec_initial_ue_ie(s) == Some((head, k))) by {
            assert(s =~= e_head + (e_rest + tail));
            lemma_dec_enc_initial_ue_ie(head, e_rest + tail);
        }
        assert(dec_initial_ue_ies(s.skip(k), items.len() - 1) == Some((rest, e_rest.len() as int))) by {
            assert(s.skip(k) =~= e_rest + tail);
            lemma_dec_enc_initial_ue_ies(rest, tail);
        }
        assert(seq![head] + rest =~= items);
        assert(enc_initial_ue_ies(items).len() == k + e_rest.len());
    }
}

/// An InitialUEMessage: the entry count, then the entries.
pub open spec fn enc_initial_ue_message(m: InitialUeMessageView) -> Seq<u8> {
    enc_u16(m.protocol_ies.len() as u16) + enc_initial_ue_ies(m.protocol_ies)
}

pub open spec fn wf_initial_ue_message(m: InitialUeMessageView) -> bool {
    &&& m.protocol_ies.len() <= 0xFFFF
    &&& wf_initial_ue_ies(m.protocol_ies)
}

pub open spec fn dec_initial_ue_message(s: Seq<u8>) -> Option<(InitialUeMessageView, int)> {
    match dec_u16(s) {
        None => None,
        Some((cnt, _)) => match dec_initial_ue_ies(s.skip(2), cnt as int) {
            None => None,
            Some((ies, m)) => Some((InitialUeMessageView { protocol_ies: ies }, 2 + m)),
        },
    }
}

#[verifier::spinoff_prover]
pub proof fn lemma_dec_enc_initial_ue_message(m: InitialUeMessageView, tail: Seq<u8>)
    requires
        wf_initial_ue_message(m),
    ensures
        dec_initial_ue_message(enc_initial_ue_message(m) + tail) == Some(
            (m, enc_initial_ue_message(m).len() as int),
        ),
{
    let s = enc_initial_ue_message(m) + tail;
    assert(s =~= enc_u16(m.protocol_ies.len() as u16) + (enc_initial_ue_ies(m.protocol_ies)
        + tail));
    lemma_dec_enc_u16(m.protocol_ies.len() as u16, enc_initial_ue_ies(m.protocol_ies) + tail);
    assert(s.skip(2) =~= enc_initial_ue_ies(m.protocol_ies) + tail);
    lemma_dec_enc_initial_ue_ies(m.protocol_ies, tail);
}

// ---------------------------------------------------------------------------
// Response side: the served-GUAMI and PLMN-support lists and the
// NGSetupResponse message.
// ---------------------------------------------------------------------------

/// One served-GUAMI entry: the PLMN identity bytes, then the region, set and
/// pointer fields.
pub open spec fn enc_guami_item(it: ServedGuamiItemView) -> Seq<u8> {
    enc_bytes(it.guami.plmn_identity) + seq![it.guami.amf_region_id] + enc_u16(it.guami.amf_set_id)
        + seq![it.guami.amf_pointer]
}

pub open spec fn wf_guami_item(it: ServedGuamiItemView) -> bool {
    it.guami.plmn_identity.len() <= 0xFFFF
}

pub open spec fn dec_guami_item(s: Seq<u8>) -> Option<(ServedGuamiItemView, int)> {
    match dec_bytes(s) {
        None => None,
        Some((plmn, k)) => if s.len() >= k + 4 {
            match dec_u16(s.skip(k + 1)) {
                None => None,
                Some((set_id, _)) => Some(
                    (
                        ServedGuamiItemView {
                            guami: GuamiView {
                                plmn_identity: plmn,
                                amf_region_id: s[k],
                                amf_set_id: set_id,
                                amf_pointer: s[k + 3],
                            },
                        },
                        k + 4,
                    ),
                ),
            }
        } else {
            None
        },
    }
}

#[verifier::rlimit(50)]
#[verifier::spinoff_prover]
pub proof fn lemma_dec_enc_guami_item(it: ServedGuamiItemView, tail: Seq<u8>)
    requires
        wf_guami_item(it),
    ensures
        dec_guami_item(enc_guami_item(it) + tail) == Some((it, enc_guami_item(it).len() as int)),
{
    let s = enc_guami_item(it) + tail;
    let k = 2 + it.guami.plmn_identity.len() as int;
    assert(s =~= enc_bytes(it.guami.plmn_identity) + (seq![it.guami.amf_region_id] + enc_u16(
        it.guami.amf_set_id,
    ) + seq![it.guami.amf_pointer] + tail));
    lemma_dec_enc_bytes(
        it.guami.plmn_identity,
        seq![it.guami.amf_region_id] + enc_u16(it.guami.amf_set_id) + seq![it.guami.amf_pointer]
            + tail,
    );
    assert(s[k] == it.guami.amf_region_id);
    assert(s.skip(k + 1) =~= enc_u16(it.guami.amf_set_id) + (seq![it.guami.amf_pointer] + tail));
    lemma_dec_enc_u16(it.guami.amf_set_id, seq![it.guami.amf_pointer] + tail);
    assert(s[k + 3] == it.guami.amf_pointer);
}

pub open spec fn enc_guami_items(items: Seq<ServedGuamiItemView>) -> Seq<u8>
    decreases items.len(),
{
    if items.len() == 0 {
        Seq::empty()
    } else {
        enc_guami_item(items[0]) + enc_guami_items(items.skip(1))
    }
}

pub open spec fn wf_guami_items(items: Seq<ServedGuamiItemView>) -> bool {
    forall|i: int| 0 <= i < items.len() ==> wf_guami_item(#[trigger] items[i])
}

pub open spec fn dec_guami_items(s: Seq<u8>, n: int) -> Option<(Seq<ServedGuamiItemView>, int)>
    decreases n,
{
    if n <= 0 {
        Some((Seq::empty(), 0int))
    } else {
        match dec_guami_item(s) {
            None => None,
            Some((it, k)) => match dec_guami_items(s.skip(k), n - 1) {
                None => None,
                Some((rest, m)) => Some((seq![it] + rest, k + m)),
            },
        }
    }
}

#[verifier::rlimit(100)]
#[verifier::spinoff_prover]
pub proof fn lemma_dec_enc_guami_items(items: Seq<ServedGuamiItemView>, tail: Seq<u8>)
    requires
        wf_guami_items(items),
    ensures
        dec_guami_items(enc_guami_items(items) + tail, items.len() as int) == Some(
            (items, enc_guami_items(items).len() as int),
        ),
    decreases items.len(),
{
    if items.len() == 0 {
        assert(items =~= Seq::<ServedGuamiItemView>::empty());
    } else {
        let head = items[0];
        let rest = items.skip(1);
        let e_head = enc_guami_item(head);
        let e_rest = enc_guami_items(rest);
        let s = enc_guami_items(items) + tail;
        let k = e_head.len() as int;
        assert(wf_guami_item(head));
        assert(wf_guami_items(rest)) by {
            assert(forall|i: int|
                0 <= i < rest.len() ==> #[trigger] rest[i] == items[i + 1] && wf_guami_item(
                    items[i + 1],
                ));
        }
        assert(dec_guami_item(s) == Some((head, k))) by {
            assert(s =~= e_head + (e_rest + tail));
            lemma_dec_enc_guami_item(head, e_rest + tail);
        }
        assert(dec_guami_items(s.skip(k), items.len() - 1) == Some((rest, e_rest.len() as int))) by {
            assert(s.skip(k) =~= e_rest + tail);
            lemma_dec_enc_guami_items(rest, tail);
        }
        assert(seq![head] + rest =~= items);
        assert(enc_guami_items(items).len() == k + e_rest.len());
    }
}

/// One slice-support entry: the slice/service type bytes.
pub open spec fn enc_snssai(x: SnssaiView) -> Seq<u8> {
    enc_bytes(x.sst)
}

pub open spec fn wf_snssai(x: SnssaiView) -> bool {
    x.sst.len() <= 0xFFFF
}

pub open spec fn dec_snssai(s: Seq<u8>) -> Option<(SnssaiView, int)> {
    match dec_bytes(s) {
        None => None,
        Some((b, k)) => Some((SnssaiView { sst: b }, k)),
    }
}

#[verifier::spinoff_prover]
pub proof fn lemma_dec_enc_snssai(x: SnssaiView, tail: Seq<u8>)
    requires
        wf_snssai(x),
    ensures
        dec_snssai(enc_snssai(x) + tail) == Some((x, enc_snssai(x).len() as int)),
{
    lemma_dec_enc_bytes(x.sst, tail);
}

pub open spec fn enc_snssais(items: Seq<SnssaiView>) -> Seq<u8>
    decreases items.len(),
{
    if items.len() == 0 {
        Seq::empty()
    } else {
        enc_snssai(items[0]) + enc_snssais(items.skip(1))
    }
}

pub open spec fn wf_snssais(items: Seq<SnssaiView>) -> bool {
    forall|i: int| 0 <= i < items.len() ==> wf_snssai(#[trigger] items[i])
}

pub open spec fn dec_snssais(s: Seq<u8>, n: int) -> Option<(Seq<SnssaiView>, int)>
    decreases n,
{
    if n <= 0 {
        Some((Seq::empty(), 0int))
    } else {
        match dec_snssai(s) {
            None => None,
            Some((it, k)) => match dec_snssais(s.skip(k), n - 1) {
                None => None,
                Some((rest, m)) => Some((seq![it] + rest, k + m)),
            },
        }
    }
}

#[verifier::rlimit(100)]
#[verifier::spinoff_prover]
pub proof fn lemma_dec_enc_snssais(items: Seq<SnssaiView>, tail: Seq<u8>)
    requires
        wf_snssais(items),
    ensures
        dec_snssais(enc_snssais(items) + tail, items.len() as int) == Some(
            (items, enc_snssais(items).len() as int),
        ),
    decreases items.len(),
{
    if items.len() == 0 {
        assert(items =~= Seq::<SnssaiView>::empty());
    } else {
        let head = items[0];
        let rest = items.skip(1);
        let e_head = enc_snssai(head);
        let e_rest = enc_snssais(rest);
        let s = enc_snssais(items) + tail;
        let k = e_head.len() as int;
        assert(wf_snssai(head));
        assert(wf_snssais(rest)) by {
            assert(forall|i: int|
                0 <= i < rest.len() ==> #[trigger] rest[i] == items[i + 1] && wf_snssai(
                    items[i + 1],
                ));
        }
        assert(dec_snssai(s) == Some((head, k))) by {
            assert(s =~= e_head + (e_rest + tail));
            lemma_dec_enc_snssai(head, e_rest + tail);
        }
        assert(dec_snssais(s.skip(k), items.len() - 1) == Some((rest, e_rest.len() as int))) by {
            assert(s.skip(k) =~= e_rest + tail);
            lemma_dec_enc_snssais(rest, tail);
        }
        assert(seq![head] + rest =~= items);
        assert(enc_snssais(items).len() == k + e_rest.len());
    }
}

/// One PLMN-support entry: the PLMN identity bytes, then the slice-support
/// entries behind their count.
pub open spec fn enc_plmn_support_item(it: PlmnSupportItemView) -> Seq<u8> {
    enc_bytes(it.plmn_identity) + enc_u16(it.slice_support_list.len() as u16) + enc_snssais(
        it.slice_support_list,
    )
}

pub open spec fn wf_plmn_support_item(it: PlmnSupportItemView) -> bool {
    &&& it.plmn_identity.len() <= 0xFFFF
    &&& it.slice_support_list.len() <= 0xFFFF
    &&& wf_snssais(it.slice_support_list)
}

pub open spec fn dec_plmn_support_item(s: Seq<u8>) -> Option<(PlmnSupportItemView, int)> {
    match dec_bytes(s) {
        None => None,
        Some((plmn, k)) => match dec_u16(s.skip(k)) {
            None => None,
            Some((cnt, _)) => match dec_snssais(s.skip(k + 2), cnt as int) {
                None => None,
                Some((slices, m)) => Some(
                    (
                        PlmnSupportItemView { plmn_identity: plmn, slice_support_list: slices },
                        k + 2 + m,
                    ),
                ),
            },
        },
    }
}

#[verifier::rlimit(50)]
#[verifier::spinoff_prover]
pub proof fn lemma_dec_enc_plmn_support_item(it: PlmnSupportItemView, tail: Seq<u8>)
    requires
        wf_plmn_support_item(it),
    ensures
        dec_plmn_support_item(enc_plmn_support_item(it) + tail) == Some(
            (it, enc_plmn_support_item(it).len() as int),
        ),
{
    let s = enc_plmn_support_item(it) + tail;
    let k = 2 + it.plmn_identity.len() as int;
    assert(s =~= enc_bytes(it.plmn_identity) + (enc_u16(it.slice_support_list.len() as u16)
        + (enc_snssais(it.slice_support_list) + tail)));
    lemma_dec_enc_bytes(
        it.plmn_identity,
        enc_u16(it.slice_support_list.len() as u16) + (enc_snssais(it.slice_support_list) + tail),
    );
    assert(s.skip(k) =~= enc_u16(it.slice_support_list.len() as u16) + (enc_snssais(
        it.slice_support_list,
    ) + tail));
    lemma_dec_enc_u16(
        it.slice_support_list.len() as u16,
        enc_snssais(it.slice_support_list) + tail,
    );
    assert(s.skip(k + 2) =~= enc_snssais(it.slice_support_list) + tail);
    lemma_dec_enc_snssais(it.slice_support_list, tail);
}

pub open spec fn enc_plmn_support_items(items: Seq<PlmnSupportItemView>) -> Seq<u8>
    decreases items.len(),
{
    if items.len() == 0 {
        Seq::empty()
    } else {
        enc_plmn_support_item(items[0]) + enc_plmn_support_items(items.skip(1))
    }
}

pub open spec fn wf_plmn_support_items(items: Seq<PlmnSupportItemView>) -> bool {
    forall|i: int| 0 <= i < items.len() ==> wf_plmn_support_item(#[trigger] items[i])
}

pub open spec fn dec_plmn_support_items(s: Seq<u8>, n: int) -> Option<
    (Seq<PlmnSupportItemView>, int),
>
    decreases n,
{
    if n <= 0 {
        Some((Seq::empty(), 0int))
    } else {
        match dec_plmn_support_item(s) {
            None => None,
            Some((it, k)) => match dec_plmn_support_items(s.skip(k), n - 1) {
                None => None,
                Some((rest, m)) => Some((seq![it] + rest, k + m)),
            },
        }
    }
}

#[verifier::rlimit(100)]
#[verifier::spinoff_prover]
pub proof fn lemma_dec_enc_plmn_support_items(items: Seq<PlmnSupportItemView>, tail: Seq<u8>)
    requires
        wf_plmn_support_items(items),
    ensures
        dec_plmn_support_items(enc_plmn_support_items(items) + tail, items.len() as int) == Some(
            (items, enc_plmn_support_items(items).len() as int),
        ),
    decreases items.len(),
{
    if items.len() == 0 {
        assert(items =~= Seq::<PlmnSupportItemView>::empty());
    } else {
        let head = items[0];
        let rest = items.skip(1);
        let e_head = enc_plmn_support_item(head);
        let e_rest = enc_plmn_support_items(rest);
        let s = enc_plmn_support_items(items) + tail;
        let k = e_head.len() as int;
        assert(wf_plmn_support_item(head));
        assert(wf_plmn_support_items(rest)) by {
            assert(forall|i: int|
                0 <= i < rest.len() ==> #[trigger] rest[i] == items[i + 1] && wf_plmn_support_item(
                    items[i + 1],
                ));
        }
        assert(dec_plmn_support_item(s) == Some((head, k))) by {
            assert(s =~= e_head + (e_rest + tail));
            lemma_dec_enc_plmn_support_item(head, e_rest + tail);
        }
        assert(dec_plmn_support_items(s.skip(k), items.len() - 1) == Some((rest, e_rest.len() as int))) by {
            assert(s.skip(k) =~= e_rest + tail);
            lemma_dec_enc_plmn_support_items(rest, tail);
        }
        assert(seq![head] + rest =~= items);
        assert(enc_plmn_support_items(items).len() == k + e_rest.len());
    }
}

/// The value bytes of one NGSetupResponse information element.
pub open spec fn enc_setup_resp_ie_value(v: SetupResponseIeValueView) -> Seq<u8> {
    match v {
        SetupResponseIeValueView::AmfName(b) => b,
        SetupResponseIeValueView::ServedGuamiList(l) => enc_u16(l.len() as u16) + enc_guami_items(
            l,
        ),
        SetupResponseIeValueView::RelativeAmfCapacity(x) => seq![x],
        SetupResponseIeValueView::PlmnSupportList(l) => enc_u16(l.len() as u16)
            + enc_plmn_support_items(l),
        SetupResponseIeValueView::Unrecognized(b) => b,
    }
}

pub open spec fn wf_setup_resp_ie(ie: SetupResponseIeView) -> bool {
    &&& (match ie.value {
        SetupResponseIeValueView::AmfName(b) => ie.id == ID_AMF_NAME,
        SetupResponseIeValueView::ServedGuamiList(l) => ie.id == ID_SERVED_GUAMI_LIST && l.len()
            <= 0xFFFF && wf_guami_items(l),
        SetupResponseIeValueView::RelativeAmfCapacity(_) => ie.id == ID_RELATIVE_AMF_CAPACITY,
        SetupResponseIeValueView::PlmnSupportList(l) => ie.id == ID_PLMN_SUPPORT_LIST && l.len()
            <= 0xFFFF && wf_plmn_support_items(l),
        SetupResponseIeValueView::Unrecognized(b) => ie.id != ID_AMF_NAME && ie.id
            != ID_SERVED_GUAMI_LIST && ie.id != ID_RELATIVE_AMF_CAPACITY && ie.id
            != ID_PLMN_SUPPORT_LIST,
    })
    &&& enc_setup_resp_ie_value(ie.value).len() <= 0xFFFF
}

/// One NGSetupResponse entry: tag, criticality, then the length-prefixed
/// value bytes.
pub open spec fn enc_setup_resp_ie(ie: SetupResponseIeView) -> Seq<u8> {
    enc_u16(ie.id) + seq![crit_code(ie.criticality)] + enc_bytes(enc_setup_resp_ie_value(ie.value))
}

pub open spec fn dec_setup_resp_ie_value(id: u16, vb: Seq<u8>) -> Option<SetupResponseIeValueView> {
    if id == ID_AMF_NAME {
        Some(SetupResponseIeValueView::AmfName(vb))
    } else if id == ID_SERVED_GUAMI_LIST {
        match dec_u16(vb) {
            None => None,
            Some((cnt, _)) => match dec_guami_items(vb.skip(2), cnt as int) {
                None => None,
                Some((items, m)) => if 2 + m == vb.len() {
                    Some(SetupResponseIeValueView::ServedGuamiList(items))
                } else {
                    None
                },
            },
        }
    } else if id == ID_RELATIVE_AMF_CAPACITY {
        if vb.len() == 1 {
            Some(SetupResponseIeValueView::RelativeAmfCapacity(vb[0]))
        } else {
            None
        }
    } else if id == ID_PLMN_SUPPORT_LIST {
        match dec_u16(vb) {
            None => None,
            Some((cnt, _)) => match dec_plmn_support_items(vb.skip(2), cnt as int) {
                None => None,
                Some((items, m)) => if 2 + m == vb.len() {
                    Some(SetupResponseIeValueView::PlmnSupportList(items))
                } else {
                    None
                },
            },
        }
    } else {
        Some(SetupResponseIeValueView::Unrecognized(vb))
    }
}

pub open spec fn dec_setup_resp_ie(s: Seq<u8>) -> Option<(SetupResponseIeView, int)> {
    match dec_u16(s) {
        None => None,
        Some((id, _)) => match dec_crit(s.skip(2)) {
            None => None,
            Some((c, _)) => match dec_bytes(s.skip(3)) {
                None => None,
                Some((vb, m)) => match dec_setup_resp_ie_value(id, vb) {
                    None => None,
                    Some(v) => Some((SetupResponseIeView { id, criticality: c, value: v }, 3 + m)),
                },
            },
        },
    }
}

#[verifier::spinoff_prover]
pub proof fn lemma_dec_enc_setup_resp_ie_value(ie: SetupResponseIeView)
    requires
        wf_setup_resp_ie(ie),
    ensures
        dec_setup_resp_ie_value(ie.id, enc_setup_resp_ie_value(ie.value)) == Some(ie.value),
{
    let vb = enc_setup_resp_ie_value(ie.value);
    match ie.value {
        SetupResponseIeValueView::AmfName(_) => {},
        SetupResponseIeValueView::ServedGuamiList(l) => {
            assert(dec_u16(vb) == Some((l.len() as u16, 2int))) by {
                assert(vb =~= enc_u16(l.len() as u16) + enc_guami_items(l));
                lemma_dec_enc_u16(l.len() as u16, enc_guami_items(l));
            }
            assert(dec_guami_items(vb.skip(2), l.len() as int) == Some(
                (l, enc_guami_items(l).len() as int),
            )) by {
                assert(vb.skip(2) =~= enc_guami_items(l) + Seq::<u8>::empty());
                lemma_dec_enc_guami_items(l, Seq::<u8>::empty());
            }
            assert(vb.len() == 2 + enc_guami_items(l).len());
        },
        SetupResponseIeValueView::RelativeAmfCapacity(_) => {},
        SetupResponseIeValueView::PlmnSupportList(l) => {
            assert(dec_u16(vb) == Some((l.len() as u16, 2int))) by {
                assert(vb =~= enc_u16(l.len() as u16) + enc_plmn_support_items(l));
                lemma_dec_enc_u16(l.len() as u16, enc_plmn_support_items(l));
            }
            assert(dec_plmn_support_items(vb.skip(2), l.len() as int) == Some(
                (l, enc_plmn_support_items(l).len() as int),
            )) by {
                assert(vb.skip(2) =~= enc_plmn_support_items(l) + Seq::<u8>::empty());
                lemma_dec_enc_plmn_support_items(l, Seq::<u8>::empty());
            }
            assert(vb.len() == 2 + enc_plmn_support_items(l).len());
        },
        SetupResponseIeValueView::Unrecognized(_) => {},
    }
}

#[verifier::rlimit(100)]
#[verifier::spinoff_prover]
pub proof fn lemma_dec_enc_setup_resp_ie(ie: SetupResponseIeView, tail: Seq<u8>)
    requires
        wf_setup_resp_ie(ie),
    ensures
        dec_setup_resp_ie(enc_setup_resp_ie(ie) + tail) == Some(
            (ie, enc_setup_resp_ie(ie).len() as int),
        ),
{
    let vb = enc_setup_resp_ie_value(ie.value);
    let s = enc_setup_resp_ie(ie) + tail;
    assert(dec_u16(s) == Some((ie.id, 2int))) by {
        assert(s =~= enc_u16(ie.id) + (seq![crit_code(ie.criticality)] + (enc_bytes(vb) + tail)));
        lemma_dec_enc_u16(ie.id, seq![crit_code(ie.criticality)] + (enc_bytes(vb) + tail));
    }
    assert(dec_crit(s.skip(2)) == Some((ie.criticality, 1int))) by {
        assert(s.skip(2) =~= seq![crit_code(ie.criticality)] + (enc_bytes(vb) + tail));
        lemma_dec_enc_crit(ie.criticality, enc_bytes(vb) + tail);
    }
    assert(dec_bytes(s.skip(3)) == Some((vb, 2 + vb.len() as int))) by {
        assert(s.skip(3) =~= enc_bytes(vb) + tail);
        lemma_dec_enc_bytes(vb, tail);
    }
    lemma_dec_enc_setup_resp_ie_value(ie);
    assert(enc_setup_resp_ie(ie).len() == 5 + vb.len());
}

pub open spec fn enc_setup_resp_ies(ies: Seq<SetupResponseIeView>) -> Seq<u8>
    decreases ies.len(),
{
    if ies.len() == 0 {
        Seq::empty()
    } else {
        enc_setup_resp_ie(ies[0]) + enc_setup_resp_ies(ies.skip(1))
    }
}

pub open spec fn wf_setup_resp_ies(ies: Seq<SetupResponseIeView>) -> bool {
    forall|i: int| 0 <= i < ies.len() ==> wf_setup_resp_ie(#[trigger] ies[i])
}

pub open spec fn dec_setup_resp_ies(s: Seq<u8>, n: int) -> Option<(Seq<SetupResponseIeView>, int)>
    decreases n,
{
    if n <= 0 {
        Some((Seq::empty(), 0int))
    } else {
        match dec_setup_resp_ie(s) {
            None => None,
            Some((ie, k)) => match dec_setup_resp_ies(s.skip(k), n - 1) {
                None => None,
                Some((rest, m)) => Some((seq![ie] + rest, k + m)),
            },
        }
    }
}

#[verifier::rlimit(100)]
#[verifier::spinoff_prover]
pub proof fn lemma_dec_enc_setup_resp_ies(ies: Seq<SetupResponseIeView>, tail: Seq<u8>)
    requires
        wf_setup_resp_ies(ies),
    ensures
        dec_setup_resp_ies(enc_setup_resp_ies(ies) + tail, ies.len() as int) == Some(
            (ies, enc_setup_resp_ies(ies).len() as int),
        ),
    decreases ies.len(),
{
    if ies.len() == 0 {
        assert(ies =~= Seq::<SetupResponseIeView>::empty());
    } else {
        let head = ies[0];
        let rest = ies.skip(1);
        let s = enc_setup_resp_ies(ies) + tail;
        assert(wf_setup_resp_ie(head));
        assert(wf_setup_resp_ies(rest)) by {
            assert(forall|i: int|
                0 <= i < rest.len() ==> #[trigger] rest[i] == ies[i + 1] && wf_setup_resp_ie(
                    ies[i + 1],
                ));
        }
        assert(s =~= enc_setup_resp_ie(head) + (enc_setup_resp_ies(rest) + tail));
        lemma_dec_enc_setup_resp_ie(head, enc_setup_resp_ies(rest) + tail);
        let k = enc_setup_resp_ie(head).len() as int;
        assert(s.skip(k) =~= enc_setup_resp_ies(rest) + tail);
        lemma_dec_enc_setup_resp_ies(rest, tail);
        assert(seq![head] + rest =~= ies);
    }
}

/// An NGSetupResponse: the entry count, then the entries.
pub open spec fn enc_setup_response(m: NgSetupResponseView) -> Seq<u8> {
    enc_u16(m.protocol_ies.len() as u16) + enc_setup_resp_ies(m.protocol_ies)
}

pub open spec fn wf_setup_response(m: NgSetupResponseView) -> bool {
    &&& m.protocol_ies.len() <= 0xFFFF
    &&& wf_setup_resp_ies(m.protocol_ies)
}

pub open spec fn dec_setup_response(s: Seq<u8>) -> Option<(NgSetupResponseView, int)> {
    match dec_u16(s) {
        None => None,
        Some((cnt, _)) => match dec_setup_resp_ies(s.skip(2), cnt as int) {
            None => None,
            Some((ies, m)) => Some((NgSetupResponseView { protocol_ies: ies }, 2 + m)),
        },
    }
}

#[verifier::spinoff_prover]
pub proof fn lemma_dec_enc_setup_response(m: NgSetupResponseView, tail: Seq<u8>)
    requires
        wf_setup_response(m),
    ensures
        dec_setup_response(enc_setup_response(m) + tail) == Some(
            (m, enc_setup_response(m).len() as int),
        ),
{
    let s = enc_setup_response(m) + tail;
    assert(s =~= enc_u16(m.protocol_ies.len() as u16) + (enc_setup_resp_ies(m.protocol_ies)
        + tail));
    lemma_dec_enc_u16(m.protocol_ies.len() as u16, enc_setup_resp_ies(m.protocol_ies) + tail);
    assert(s.skip(2) =~= enc_setup_resp_ies(m.protocol_ies) + tail);
    lemma_dec_enc_setup_resp_ies(m.protocol_ies, tail);
}

// ---------------------------------------------------------------------------
// The outer message kinds and the protocol data unit.
// ---------------------------------------------------------------------------

/// The procedure value of an initiating message, without its length prefix.
pub open spec fn enc_init_value(v: InitiatingMessageValueView) -> Seq<u8> {
    match v {
        InitiatingMessageValueView::NgSetup(m) => enc_setup_request(m),
        InitiatingMessageValueView::InitialUeMessage(m) => enc_initial_ue_message(m),
        InitiatingMessageValueView::UplinkNasTransport(m) => m.protocol_ies,
        InitiatingMessageValueView::Unsupported(b) => b,
    }
}

/// An initiating message is well-formed when its procedure code agrees with
/// its value kind and the value fits its 16-bit length field. An unsupported
/// value never carries a supported procedure code.
pub open spec fn wf_initiating(m: InitiatingMessageView) -> bool {
    &&& (match m.value {
        InitiatingMessageValueView::NgSetup(x) => m.procedure_code == ID_NG_SETUP
            && wf_setup_request(x),
        InitiatingMessageValueView::InitialUeMessage(x) => m.procedure_code
            == ID_INITIAL_UE_MESSAGE && wf_initial_ue_message(x),
        InitiatingMessageValueView::UplinkNasTransport(_) => m.procedure_code
            == ID_UPLINK_NAS_TRANSPORT,
        InitiatingMessageValueView::Unsupported(_) => m.procedure_code != ID_NG_SETUP
            && m.procedure_code != ID_INITIAL_UE_MESSAGE && m.procedure_code
            != ID_UPLINK_NAS_TRANSPORT,
    })
    &&& enc_init_value(m.value).len() <= 0xFFFF
}

/// An initiating message: procedure code, criticality, then the
/// length-prefixed procedure value.
pub open spec fn enc_initiating(m: InitiatingMessageView) -> Seq<u8> {
    seq![m.procedure_code, crit_code(m.criticality)] + enc_bytes(enc_init_value(m.value))
}

/// Interprets the procedure value by the procedure code. A supported code
/// must parse to its message, consuming the value bytes exactly; any other
/// code keeps the raw bytes as an unsupported procedure.
pub open spec fn dec_init_value(code: u8, vb: Seq<u8>) -> Option<InitiatingMessageValueView> {
    if code == ID_NG_SETUP {
        match dec_setup_request(vb) {
            Some((x, n)) => if n == vb.len() {
                Some(InitiatingMessageValueView::NgSetup(x))
            } else {
                None
            },
            None => None,
        }
    } else if code == ID_INITIAL_UE_MESSAGE {
        match dec_initial_ue_message(vb) {
            Some((x, n)) => if n == vb.len() {
                Some(InitiatingMessageValueView::InitialUeMessage(x))
            } else {
                None
            },
            None => None,
        }
    } else if code == ID_UPLINK_NAS_TRANSPORT {
        Some(
            InitiatingMessageValueView::UplinkNasTransport(
                UplinkNasTransportView { protocol_ies: vb },
            ),
        )
    } else {
        Some(InitiatingMessageValueView::Unsupported(vb))
    }
}

pub open spec fn dec_initiating(s: Seq<u8>) -> Option<(InitiatingMessageView, int)> {
    if s.len() >= 1 {
        match dec_crit(s.skip(1)) {
            None => None,
            Some((c, _)) => match dec_bytes(s.skip(2)) {
                None => None,
                Some((vb, m)) => match dec_init_value(s[0], vb) {
                    None => None,
                    Some(v) => Some(
                        (
                            InitiatingMessageView {
                                procedure_code: s[0],
                                criticality: c,
                                value: v,
                            },
                            2 + m,
                        ),
                    ),
                },
            },
        }
    } else {
        None
    }
}

#[verifier::spinoff_prover]
pub proof fn lemma_dec_enc_init_value(m: InitiatingMessageView)
    requires
        wf_initiating(m),
    ensures
        dec_init_value(m.procedure_code, enc_init_value(m.value)) == Some(m.value),
{
    let vb = enc_init_value(m.value);
    match m.value {
        InitiatingMessageValueView::NgSetup(x) => {
            assert(vb =~= enc_setup_request(x) + Seq::<u8>::empty());
            lemma_dec_enc_setup_request(x, Seq::<u8>::empty());
        },
        InitiatingMessageValueView::InitialUeMessage(x) => {
            assert(vb =~= enc_initial_ue_message(x) + Seq::<u8>::empty());
            lemma_dec_enc_initial_ue_message(x, Seq::<u8>::empty());
        },
        InitiatingMessageValueView::UplinkNasTransport(x) => {
            assert(UplinkNasTransportView { protocol_ies: x.protocol_ies } =~= x);
        },
        InitiatingMessageValueView::Unsupported(_) => {},
    }
}

#[verifier::rlimit(100)]
#[verifier::spinoff_prover]
pub proof fn lemma_dec_enc_initiating(m: InitiatingMessageView, tail: Seq<u8>)
    requires
        wf_initiating(m),
    ensures
        dec_initiating(enc_initiating(m) + tail) == Some((m, enc_initiating(m).len() as int)),
{
    let vb = enc_init_value(m.value);
    let s = enc_initiating(m) + tail;
    assert(s[0] == m.procedure_code);
    assert(dec_crit(s.skip(1)) == Some((m.criticality, 1int))) by {
        assert(s.skip(1) =~= seq![crit_code(m.criticality)] + (enc_bytes(vb) + tail));
        lemma_dec_enc_crit(m.criticality, enc_bytes(vb) + tail);
    }
    assert(dec_bytes(s.skip(2)) == Some((vb, 2 + vb.len() as int))) by {
        assert(s.skip(2) =~= enc_bytes(vb) + tail);
        lemma_dec_enc_bytes(vb, tail);
    }
    lemma_dec_enc_init_value(m);
    assert(enc_initiating(m).len() == 4 + vb.len());
}

/// The procedure value of a successful outcome, without its length prefix.
pub open spec fn enc_succ_value(v: SuccessfulOutcomeValueView) -> Seq<u8> {
    match v {
        SuccessfulOutcomeValueView::NgSetup(m) => enc_setup_response(m),
        SuccessfulOutcomeValueView::Unsupported(b) => b,
    }
}

pub open spec fn wf_successful(m: SuccessfulOutcomeView) -> bool {
    &&& (match m.value {
        SuccessfulOutcomeValueView::NgSetup(x) => m.procedure_code == ID_NG_SETUP
            && wf_setup_response(x),
        SuccessfulOutcomeValueView::Unsupported(_) => m.procedure_code != ID_NG_SETUP,
    })
    &&& enc_succ_value(m.value).len() <= 0xFFFF
}

/// A successful outcome: procedure code, criticality, then the
/// length-prefixed procedure value.
pub open spec fn enc_successful(m: SuccessfulOutcomeView) -> Seq<u8> {
    seq![m.procedure_code, crit_code(m.criticality)] + enc_bytes(enc_succ_value(m.value))
}

pub open spec fn dec_succ_value(code: u8, vb: Seq<u8>) -> Option<SuccessfulOutcomeValueView> {
    if code == ID_NG_SETUP {
        match dec_setup_response(vb) {
            Some((x, n)) => if n == vb.len() {
                Some(SuccessfulOutcomeValueView::NgSetup(x))
            } else {
                None
            },
            None => None,
        }
    } else {
        Some(SuccessfulOutcomeValueView::Unsupported(vb))
    }
}

pub open spec fn dec_successful(s: Seq<u8>) -> Option<(SuccessfulOutcomeView, int)> {
    if s.len() >= 1 {
        match dec_crit(s.skip(1)) {
            None => None,
            Some((c, _)) => match dec_bytes(s.skip(2)) {
                None => None,
                Some((vb, m)) => match dec_succ_value(s[0], vb) {
                    None => None,
                    Some(v) => Some(
                        (
                            SuccessfulOutcomeView {
                                procedure_code: s[0],
                                criticality: c,
                                value: v,
                            },
                            2 + m,
                        ),
                    ),
                },
            },
        }
    } else {
        None
    }
}

#[verifier::spinoff_prover]
pub proof fn lemma_dec_enc_succ_value(m: SuccessfulOutcomeView)
    requires
        wf_successful(m),
    ensures
        dec_succ_value(m.procedure_code, enc_succ_value(m.value)) == Some(m.value),
{
    let vb = enc_succ_value(m.value);
    match m.value {
        SuccessfulOutcomeValueView::NgSetup(x) => {
            assert(vb =~= enc_setup_response(x) + Seq::<u8>::empty());
            lemma_dec_enc_setup_response(x, Seq::<u8>::empty());
        },
        SuccessfulOutcomeValueView::Unsupported(_) => {},
    }
}

#[verifier::rlimit(100)]
#[verifier::spinoff_prover]
pub proof fn lemma_dec_enc_successful(m: SuccessfulOutcomeView, tail: Seq<u8>)
    requires
        wf_successful(m),
    ensures
        dec_successful(enc_successful(m) + tail) == Some((m, enc_successful(m).len() as int)),
{
    let vb = enc_succ_value(m.value);
    let s = enc_successful(m) + tail;
    assert(s[0] == m.procedure_code);
    assert(dec_crit(s.skip(1)) == Some((m.criticality, 1int))) by {
        assert(s.skip(1) =~= seq![crit_code(m.criticality)] + (enc_bytes(vb) + tail));
        lemma_dec_enc_crit(m.criticality, enc_bytes(vb) + tail);
    }
    assert(dec_bytes(s.skip(2)) == Some((vb, 2 + vb.len() as int))) by {
        assert(s.skip(2) =~= enc_bytes(vb) + tail);
        lemma_dec_enc_bytes(vb, tail);
    }
    lemma_dec_enc_succ_value(m);
    assert(enc_successful(m).len() == 4 + vb.len());
}

pub open spec fn wf_unsuccessful(m: UnsuccessfulOutcomeView) -> bool {
    m.value.len() <= 0xFFFF
}

/// An unsuccessful outcome: procedure code, criticality, then the
/// length-prefixed raw value.
pub open spec fn enc_unsuccessful(m: UnsuccessfulOutcomeView) -> Seq<u8> {
    seq![m.procedure_code, crit_code(m.criticality)] + enc_bytes(m.value)
}

pub open spec fn dec_unsuccessful(s: Seq<u8>) -> Option<(UnsuccessfulOutcomeView, int)> {
    if s.len() >= 1 {
        match dec_crit(s.skip(1)) {
            None => None,
            Some((c, _)) => match dec_bytes(s.skip(2)) {
                None => None,
                Some((vb, m)) => Some(
                    (
                        UnsuccessfulOutcomeView { procedure_code: s[0], criticality: c, value: vb },
                        2 + m,
                    ),
                ),
            },
        }
    } else {
        None
    }
}

#[verifier::rlimit(100)]
#[verifier::spinoff_prover]
pub proof fn lemma_dec_enc_unsuccessful(m: UnsuccessfulOutcomeView, tail: Seq<u8>)
    requires
        wf_unsuccessful(m),
    ensures
        dec_unsuccessful(enc_unsuccessful(m) + tail) == Some((m, enc_unsuccessful(m).len() as int)),
{
    let s = enc_unsuccessful(m) + tail;
    assert(s[0] == m.procedure_code);
    assert(dec_crit(s.skip(1)) == Some((m.criticality, 1int))) by {
        assert(s.skip(1) =~= seq![crit_code(m.criticality)] + (enc_bytes(m.value) + tail));
        lemma_dec_enc_crit(m.criticality, enc_bytes(m.value) + tail);
    }
    assert(dec_bytes(s.skip(2)) == Some((m.value, 2 + m.value.len() as int))) by {
        assert(s.skip(2) =~= enc_bytes(m.value) + tail);
        lemma_dec_enc_bytes(m.value, tail);
    }
    assert(enc_unsuccessful(m).len() == 4 + m.value.len());
}

/// A protocol data unit on the wire: a one-byte kind tag, then the message.
pub open spec fn enc_pdu(p: NgapPduView) -> Seq<u8> {
    match p {
        NgapPduView::InitiatingMessage(m) => seq![0u8] + enc_initiating(m),
        NgapPduView::SuccessfulOutcome(m) => seq![1u8] + enc_successful(m),
        NgapPduView::UnsuccessfulOutcome(m) => seq![2u8] + enc_unsuccessful(m),
    }
}

/// A protocol data unit is well-formed when its message is.
pub open spec fn wf_pdu(p: NgapPduView) -> bool {
    match p {
        NgapPduView::InitiatingMessage(m) => wf_initiating(m),
        NgapPduView::SuccessfulOutcome(m) => wf_successful(m),
        NgapPduView::UnsuccessfulOutcome(m) => wf_unsuccessful(m),
    }
}

pub open spec fn dec_pdu(s: Seq<u8>) -> Option<(NgapPduView, int)> {
    if s.len() >= 1 {
        if s[0] == 0 {
            match dec_initiating(s.skip(1)) {
                None => None,
                Some((m, n)) => Some((NgapPduView::InitiatingMessage(m), 1 + n)),
            }
        } else if s[0] == 1 {
            match dec_successful(s.skip(1)) {
                None => None,
                Some((m, n)) => Some((NgapPduView::SuccessfulOutcome(m), 1 + n)),
            }
        } else if s[0] == 2 {
            match dec_unsuccessful(s.skip(1)) {
                None => None,
                Some((m, n)) => Some((NgapPduView::UnsuccessfulOutcome(m), 1 + n)),
            }
        } else {
            None
        }
    } else {
        None
    }
}

#[verifier::spinoff_prover]
pub proof fn lemma_dec_enc_pdu(p: NgapPduView, tail: Seq<u8>)
    requires
        wf_pdu(p),
    ensures
        dec_pdu(enc_pdu(p) + tail) == Some((p, enc_pdu(p).len() as int)),
{
    let s = enc_pdu(p) + tail;
    match p {
        NgapPduView::InitiatingMessage(m) => {
            assert(s.skip(1) =~= enc_initiating(m) + tail);
            lemma_dec_enc_initiating(m, tail);
        },
        NgapPduView::SuccessfulOutcome(m) => {
            assert(s.skip(1) =~= enc_successful(m) + tail);
            lemma_dec_enc_successful(m, tail);
        },
        NgapPduView::UnsuccessfulOutcome(m) => {
            assert(s.skip(1) =~= enc_unsuccessful(m) + tail);
            lemma_dec_enc_unsuccessful(m, tail);
        },
    }
}

/// What the decoder accepts: a whole buffer that is exactly one encoded
/// protocol data unit, nothing before and nothing after it.
pub open spec fn spec_decode_pdu(s: Seq<u8>) -> Option<NgapPduView> {
    match dec_pdu(s) {
        None => None,
        Some((p, n)) => if n == s.len() {
            Some(p)
        } else {
            None
        },
    }
}

/// Decoding inverts encoding: every well-formed protocol data unit comes
/// back unchanged from its own wire bytes.
pub proof fn lemma_pdu_round_trip(p: NgapPduView)
    requires
        wf_pdu(p),
    ensures
        spec_decode_pdu(enc_pdu(p)) == Some(p),
{
    assert(enc_pdu(p) =~= enc_pdu(p) + Seq::<u8>::empty());
    lemma_dec_enc_pdu(p, Seq::<u8>::empty());
}


// ---------------------------------------------------------------------------
// The executable encoder. Each function appends exactly the bytes its
// specification names; a fresh buffer is used for every length-prefixed
// field, never one shared across responses.
// ---------------------------------------------------------------------------

/// Appends a big-endian 16-bit integer.
fn push_u16(out: &mut Vec<u8>, x: u16)
    ensures
        final(out)@ == old(out)@ + enc_u16(x),
{
    out.push((x / 256) as u8);
    out.push((x % 256) as u8);
    proof {
        assert(out@ =~= old(out)@ + enc_u16(x));
    }
}

/// Appends a big-endian 32-bit integer.
fn push_u32(out: &mut Vec<u8>, x: u32)
    ensures
        final(out)@ == old(out)@ + enc_u32(x),
{
    out.push((x / 0x1000000) as u8);
    out.push(((x / 0x10000) % 256) as u8);
    out.push(((x / 256) % 256) as u8);
    out.push((x % 256) as u8);
    proof {
        assert(out@ =~= old(out)@ + enc_u32(x));
    }
}

/// Appends a criticality code.
fn push_crit(out: &mut Vec<u8>, c: Criticality)
    ensures
        final(out)@ == old(out)@ + seq![crit_code(c)],
{
    match c {
        Criticality::Reject => out.push(0),
        Criticality::Ignore => out.push(1),
        Criticality::Notify => out.push(2),
    }
    proof {
        assert(out@ =~= old(out)@ + seq![crit_code(c)]);
    }
}

/// Appends a length-prefixed byte string.
fn push_bytes(out: &mut Vec<u8>, b: &Vec<u8>)
    requires
        b@.len() <= 0xFFFF,
    ensures
        final(out)@ == old(out)@ + enc_bytes(b@),
{
    push_u16(out, b.len() as u16);
    crate::bytes::append_bytes(out, b);
    proof {
        assert(out@ =~= old(out)@ + enc_bytes(b@));
    }
}

/// Appends a RAN node identity.
fn encode_ran_node_id(g: &GlobalRanNodeId, out: &mut Vec<u8>)
    requires
        wf_ran_node_id(g.deep_view()),
    ensures
        final(out)@ == old(out)@ + enc_ran_node_id(g.deep_view()),
{
    match g {
        GlobalRanNodeId::GlobalGnbId(b) => {
            out.push(0);
            push_bytes(out, b);
        },
        GlobalRanNodeId::GlobalNgEnbId(b) => {
            out.push(1);
            push_bytes(out, b);
        },
        GlobalRanNodeId::GlobalN3IwfId(b) => {
            out.push(2);
            push_bytes(out, b);
        },
    }
    proof {
        assert(out@ =~= old(out)@ + enc_ran_node_id(g.deep_view()));
    }
}

/// Appends a user location.
fn encode_user_location(u: &UserLocationInformation, out: &mut Vec<u8>)
    requires
        wf_user_location(u.deep_view()),
    ensures
        final(out)@ == old(out)@ + enc_user_location(u.deep_view()),
{
    match u {
        UserLocationInformation::Nr(b) => {
            out.push(0);
            push_bytes(out, b);
        },
        UserLocationInformation::Eutra(b) => {
            out.push(1);
            push_bytes(out, b);
        },
        UserLocationInformation::N3iwf(b) => {
            out.push(2);
            push_bytes(out, b);
        },
    }
    proof {
        assert(out@ =~= old(out)@ + enc_user_location(u.deep_view()));
    }
}

/// Appends the value bytes of an NGSetupRequest entry.
fn encode_setup_req_ie_value(v: &SetupRequestIeValue, out: &mut Vec<u8>)
    requires
        (match v.deep_view() {
            SetupRequestIeValueView::GlobalRanNodeId(g) => wf_ran_node_id(g),
            _ => true,
        }),
    ensures
        final(out)@ == old(out)@ + enc_setup_req_ie_value(v.deep_view()),
{
    match v {
        SetupRequestIeValue::GlobalRanNodeId(g) => encode_ran_node_id(g, out),
        SetupRequestIeValue::SupportedTaList(b) => crate::bytes::append_bytes(out, b),
        SetupRequestIeValue::DefaultPagingDrx(d) => {
            out.push(*d);
            proof {
                assert(out@ =~= old(out)@ + seq![*d]);
            }
        },
        SetupRequestIeValue::Unrecognized(b) => crate::bytes::append_bytes(out, b),
    }
}

/// Appends one NGSetupRequest entry.
fn encode_setup_req_ie(ie: &SetupRequestIe, out: &mut Vec<u8>)
    requires
        wf_setup_req_ie(ie.deep_view()),
    ensures
        final(out)@ == old(out)@ + enc_setup_req_ie(ie.deep_view()),
{
    push_u16(out, ie.id);
    push_crit(out, ie.criticality);
    let mut vb: Vec<u8> = Vec::new();
    encode_setup_req_ie_value(&ie.value, &mut vb);
    push_bytes(out, &vb);
    proof {
        assert(out@ =~= old(out)@ + enc_setup_req_ie(ie.deep_view()));
    }
}

/// Appends the value bytes of an InitialUEMessage entry.
fn encode_initial_ue_ie_value(v: &InitialUeIeValue, out: &mut Vec<u8>)
    requires
        (match v.deep_view() {
            InitialUeIeValueView::UserLocationInformation(u) => wf_user_location(u),
            _ => true,
        }),
    ensures
        final(out)@ == old(out)@ + enc_initial_ue_ie_value(v.deep_view()),
{
    match v {
        InitialUeIeValue::RanUeNgapId(x) => push_u32(out, *x),
        InitialUeIeValue::NasPdu(b) => crate::bytes::append_bytes(out, b),
        InitialUeIeValue::UserLocationInformation(u) => encode_user_location(u, out),
        InitialUeIeValue::Unrecognized(b) => crate::bytes::append_bytes(out, b),
    }
}

/// Appends one InitialUEMessage entry.
fn encode_initial_ue_ie(ie: &InitialUeIe, out: &mut Vec<u8>)
    requires
        wf_initial_ue_ie(ie.deep_view()),
    ensures
        final(out)@ == old(out)@ + enc_initial_ue_ie(ie.deep_view()),
{
    push_u16(out, ie.id);
    push_crit(out, ie.criticality);
    let mut vb: Vec<u8> = Vec::new();
    encode_initial_ue_ie_value(&ie.value, &mut vb);
    push_bytes(out, &vb);
    proof {
        assert(out@ =~= old(out)@ + enc_initial_ue_ie(ie.deep_view()));
    }
}

/// Appends one served-GUAMI entry.
fn encode_guami_item(it: &ServedGuamiItem, out: &mut Vec<u8>)
    requires
        wf_guami_item(it.deep_view()),
    ensures
        final(out)@ == old(out)@ + enc_guami_item(it.deep_view()),
{
    push_bytes(out, &it.guami.plmn_identity.0);
    out.push(it.guami.amf_region_id);
    push_u16(out, it.guami.amf_set_id);
    out.push(it.guami.amf_pointer);
    proof {
        assert(out@ =~= old(out)@ + enc_guami_item(it.deep_view()));
    }
}

/// Appends one slice-support entry.
fn encode_snssai(x: &Snssai, out: &mut Vec<u8>)
    requires
        wf_snssai(x.deep_view()),
    ensures
        final(out)@ == old(out)@ + enc_snssai(x.deep_view()),
{
    push_bytes(out, &x.sst);
}

/// Appends one PLMN-support entry.
fn encode_plmn_support_item(it: &PlmnSupportItem, out: &mut Vec<u8>)
    requires
        wf_plmn_support_item(it.deep_view()),
    ensures
        final(out)@ == old(out)@ + enc_plmn_support_item(it.deep_view()),
{
    push_bytes(out, &it.plmn_identity.0);
    push_u16(out, it.slice_support_list.len() as u16);
    encode_snssais(&it.slice_support_list, out);
    proof {
        assert(out@ =~= old(out)@ + enc_plmn_support_item(it.deep_view()));
    }
}

/// Appends the value bytes of an NGSetupResponse entry.
fn encode_setup_resp_ie_value(v: &SetupResponseIeValue, out: &mut Vec<u8>)
    requires
        (match v.deep_view() {
            SetupResponseIeValueView::ServedGuamiList(l) => l.len() <= 0xFFFF
                && wf_guami_items(l),
            SetupResponseIeValueView::PlmnSupportList(l) => l.len() <= 0xFFFF
                && wf_plmn_support_items(l),
            _ => true,
        }),
    ensures
        final(out)@ == old(out)@ + enc_setup_resp_ie_value(v.deep_view()),
{
    match v {
        SetupResponseIeValue::AmfName(b) => crate::bytes::append_bytes(out, b),
        SetupResponseIeValue::ServedGuamiList(l) => {
            push_u16(out, l.len() as u16);
            encode_guami_items(l, out);
            proof {
                assert(out@ =~= old(out)@ + enc_setup_resp_ie_value(v.deep_view()));
            }
        },
        SetupResponseIeValue::RelativeAmfCapacity(x) => {
            out.push(*x);
            proof {
                assert(out@ =~= old(out)@ + seq![*x]);
            }
        },
        SetupResponseIeValue::PlmnSupportList(l) => {
            push_u16(out, l.len() as u16);
            encode_plmn_support_items(l, out);
            proof {
                assert(out@ =~= old(out)@ + enc_setup_resp_ie_value(v.deep_view()));
            }
        },
        SetupResponseIeValue::Unrecognized(b) => crate::bytes::append_bytes(out, b),
    }
}

/// Appends one NGSetupResponse entry.
fn encode_setup_resp_ie(ie: &SetupResponseIe, out: &mut Vec<u8>)
    requires
        wf_setup_resp_ie(ie.deep_view()),
    ensures
        final(out)@ == old(out)@ + enc_setup_resp_ie(ie.deep_view()),
{
    push_u16(out, ie.id);
    push_crit(out, ie.criticality);
    let mut vb: Vec<u8> = Vec::new();
    encode_setup_resp_ie_value(&ie.value, &mut vb);
    push_bytes(out, &vb);
    proof {
        assert(out@ =~= old(out)@ + enc_setup_resp_ie(ie.deep_view()));
    }
}

/// Appends the entries of a list, in order.
fn encode_setup_req_ies(items: &Vec<SetupRequestIe>, out: &mut Vec<u8>)
    requires
        wf_setup_req_ies(items.deep_view()),
    ensures
        final(out)@ == old(out)@ + enc_setup_req_ies(items.deep_view()),
{
    let ghost dv = items.deep_view();
    proof {
        assert(dv.skip(0) =~= dv);
        assert(out@.skip(out@.len() as int) =~= Seq::<u8>::empty());
        assert(out@.subrange(0, out@.len() as int) =~= out@);
    }
    let mut i: usize = 0;
    while i < items.len()
        invariant
            i <= items@.len(),
            dv == items.deep_view(),
            wf_setup_req_ies(dv),
            out@.len() >= old(out)@.len(),
            out@.subrange(0, old(out)@.len() as int) == old(out)@,
            out@.skip(old(out)@.len() as int) + enc_setup_req_ies(dv.skip(i as int)) == enc_setup_req_ies(dv),
        decreases items@.len() - i,
    {
        let ghost before = out@;
        encode_setup_req_ie(&items[i], out);
        proof {
            let rem = dv.skip(i as int);
            assert(rem[0] == dv[i as int]);
            assert(rem.skip(1) =~= dv.skip(i + 1));
            assert(enc_setup_req_ies(rem) == enc_setup_req_ie(dv[i as int]) + enc_setup_req_ies(dv.skip(i + 1)));
            assert(out@ =~= before + enc_setup_req_ie(dv[i as int]));
            assert(out@.subrange(0, old(out)@.len() as int) =~= old(out)@);
            assert(out@.skip(old(out)@.len() as int) =~= before.skip(old(out)@.len() as int)
                + enc_setup_req_ie(dv[i as int]));
            assert(out@.skip(old(out)@.len() as int) + enc_setup_req_ies(dv.skip(i + 1)) =~= enc_setup_req_ies(dv));
        }
        i = i + 1;
    }
    proof {
        assert(dv.skip(i as int) =~= Seq::<SetupRequestIeView>::empty());
        assert(enc_setup_req_ies(dv.skip(i as int)) =~= Seq::<u8>::empty());
        assert(out@ =~= old(out)@ + out@.skip(old(out)@.len() as int));
        assert(out@.skip(old(out)@.len() as int) =~= enc_setup_req_ies(dv));
    }
}

/// Appends the entries of a list, in order.
fn encode_initial_ue_ies(items: &Vec<InitialUeIe>, out: &mut Vec<u8>)
    requires
        wf_initial_ue_ies(items.deep_view()),
    ensures
        final(out)@ == old(out)@ + enc_initial_ue_ies(items.deep_view()),
{
    let ghost dv = items.deep_view();
    proof {
        assert(dv.skip(0) =~= dv);
        assert(out@.skip(out@.len() as int) =~= Seq::<u8>::empty());
        assert(out@.subrange(0, out@.len() as int) =~= out@);
    }
    let mut i: usize = 0;
    while i < items.len()
        invariant
            i <= items@.len(),
            dv == items.deep_view(),
            wf_initial_ue_ies(dv),
            out@.len() >= old(out)@.len(),
            out@.subrange(0, old(out)@.len() as int) == old(out)@,
            out@.skip(old(out)@.len() as int) + enc_initial_ue_ies(dv.skip(i as int)) == enc_initial_ue_ies(dv),
        decreases items@.len() - i,
    {
        let ghost before = out@;
        encode_initial_ue_ie(&items[i], out);
        proof {
            let rem = dv.skip(i as int);
            assert(rem[0] == dv[i as int]);
            assert(rem.skip(1) =~= dv.skip(i + 1));
            assert(enc_initial_ue_ies(rem) == enc_initial_ue_ie(dv[i as int]) + enc_initial_ue_ies(dv.skip(i + 1)));
            assert(out@ =~= before + enc_initial_ue_ie(dv[i as int]));
            assert(out@.subrange(0, old(out)@.len() as int) =~= old(out)@);
            assert(out@.skip(old(out)@.len() as int) =~= before.skip(old(out)@.len() as int)
                + enc_initial_ue_ie(dv[i as int]));
            assert(out@.skip(old(out)@.len() as int) + enc_initial_ue_ies(dv.skip(i + 1)) =~= enc_initial_ue_ies(dv));
        }
        i = i + 1;
    }
    proof {
        assert(dv.skip(i as int) =~= Seq::<InitialUeIeView>::empty());
        assert(enc_initial_ue_ies(dv.skip(i as int)) =~= Seq::<u8>::empty());
        assert(out@ =~= old(out)@ + out@.skip(old(out)@.len() as int));
        assert(out@.skip(old(out)@.len() as int) =~= enc_initial_ue_ies(dv));
    }
}

/// Appends the entries of a list, in order.
fn encode_guami_items(items: &Vec<ServedGuamiItem>, out: &mut Vec<u8>)
    requires
        wf_guami_items(items.deep_view()),
    ensures
        final(out)@ == old(out)@ + enc_guami_items(items.deep_view()),
{
    let ghost dv = items.deep_view();
    proof {
        assert(dv.skip(0) =~= dv);
        assert(out@.skip(out@.len() as int) =~= Seq::<u8>::empty());
        assert(out@.subrange(0, out@.len() as int) =~= out@);
    }
    let mut i: usize = 0;
    while i < items.len()
        invariant
            i <= items@.len(),
            dv == items.deep_view(),
            wf_guami_items(dv),
            out@.len() >= old(out)@.len(),
            out@.subrange(0, old(out)@.len() as int) == old(out)@,
            out@.skip(old(out)@.len() as int) + enc_guami_items(dv.skip(i as int)) == enc_guami_items(dv),
        decreases items@.len() - i,
    {
        let ghost before = out@;
        encode_guami_item(&items[i], out);
        proof {
            let rem = dv.skip(i as int);
            assert(rem[0] == dv[i as int]);
            assert(rem.skip(1) =~= dv.skip(i + 1));
            assert(enc_guami_items(rem) == enc_guami_item(dv[i as int]) + enc_guami_items(dv.skip(i + 1)));
            assert(out@ =~= before + enc_guami_item(dv[i as int]));
            assert(out@.subrange(0, old(out)@.len() as int) =~= old(out)@);
            assert(out@.skip(old(out)@.len() as int) =~= before.skip(old(out)@.len() as int)
                + enc_guami_item(dv[i as int]));
            assert(out@.skip(old(out)@.len() as int) + enc_guami_items(dv.skip(i + 1)) =~= enc_guami_items(dv));
        }
        i = i + 1;
    }
    proof {
        assert(dv.skip(i as int) =~= Seq::<ServedGuamiItemView>::empty());
        assert(enc_guami_items(dv.skip(i as int)) =~= Seq::<u8>::empty());
        assert(out@ =~= old(out)@ + out@.skip(old(out)@.len() as int));
        assert(out@.skip(old(out)@.len() as int) =~= enc_guami_items(dv));
    }
}

/// Appends the entries of a list, in order.
fn encode_snssais(items: &Vec<Snssai>, out: &mut Vec<u8>)
    requires
        wf_snssais(items.deep_view()),
    ensures
        final(out)@ == old(out)@ + enc_snssais(items.deep_view()),
{
    let ghost dv = items.deep_view();
    proof {
        assert(dv.skip(0) =~= dv);
        assert(out@.skip(out@.len() as int) =~= Seq::<u8>::empty());
        assert(out@.subrange(0, out@.len() as int) =~= out@);
    }
    let mut i: usize = 0;
    while i < items.len()
        invariant
            i <= items@.len(),
            dv == items.deep_view(),
            wf_snssais(dv),
            out@.len() >= old(out)@.len(),
            out@.subrange(0, old(out)@.len() as int) == old(out)@,
            out@.skip(old(out)@.len() as int) + enc_snssais(dv.skip(i as int)) == enc_snssais(dv),
        decreases items@.len() - i,
    {
        let ghost before = out@;
        encode_snssai(&items[i], out);
        proof {
            let rem = dv.skip(i as int);
            assert(rem[0] == dv[i as int]);
            assert(rem.skip(1) =~= dv.skip(i + 1));
            assert(enc_snssais(rem) == enc_snssai(dv[i as int]) + enc_snssais(dv.skip(i + 1)));
            assert(out@ =~= before + enc_snssai(dv[i as int]));
            assert(out@.subrange(0, old(out)@.len() as int) =~= old(out)@);
            assert(out@.skip(old(out)@.len() as int) =~= before.skip(old(out)@.len() as int)
                + enc_snssai(dv[i as int]));
            assert(out@.skip(old(out)@.len() as int) + enc_snssais(dv.skip(i + 1)) =~= enc_snssais(dv));
        }
        i = i + 1;
    }
    proof {
        assert(dv.skip(i as int) =~= Seq::<SnssaiView>::empty());
        assert(enc_snssais(dv.skip(i as int)) =~= Seq::<u8>::empty());
        assert(out@ =~= old(out)@ + out@.skip(old(out)@.len() as int));
        assert(out@.skip(old(out)@.len() as int) =~= enc_snssais(dv));
    }
}

/// Appends the entries of a list, in order.
fn encode_plmn_support_items(items: &Vec<PlmnSupportItem>, out: &mut Vec<u8>)
    requires
        wf_plmn_support_items(items.deep_view()),
    ensures
        final(out)@ == old(out)@ + enc_plmn_support_items(items.deep_view()),
{
    let ghost dv = items.deep_view();
    proof {
        assert(dv.skip(0) =~= dv);
        assert(out@.skip(out@.len() as int) =~= Seq::<u8>::empty());
        assert(out@.subrange(0, out@.len() as int) =~= out@);
    }
    let mut i: usize = 0;
    while i < items.len()
        invariant
            i <= items@.len(),
            dv == items.deep_view(),
            wf_plmn_support_items(dv),
            out@.len() >= old(out)@.len(),
            out@.subrange(0, old(out)@.len() as int) == old(out)@,
            out@.skip(old(out)@.len() as int) + enc_plmn_support_items(dv.skip(i as int)) == enc_plmn_support_items(dv),
        decreases items@.len() - i,
    {
        let ghost before = out@;
        encode_plmn_support_item(&items[i], out);
        proof {
            let rem = dv.skip(i as int);
            assert(rem[0] == dv[i as int]);
            assert(rem.skip(1) =~= dv.skip(i + 1));
            assert(enc_plmn_support_items(rem) == enc_plmn_support_item(dv[i as int]) + enc_plmn_support_items(dv.skip(i + 1)));
            assert(out@ =~= before + enc_plmn_support_item(dv[i as int]));
            assert(out@.subrange(0, old(out)@.len() as int) =~= old(out)@);
            assert(out@.skip(old(out)@.len() as int) =~= before.skip(old(out)@.len() as int)
                + enc_plmn_support_item(dv[i as int]));
            assert(out@.skip(old(out)@.len() as int) + enc_plmn_support_items(dv.skip(i + 1)) =~= enc_plmn_support_items(dv));
        }
        i = i + 1;
    }
    proof {
        assert(dv.skip(i as int) =~= Seq::<PlmnSupportItemView>::empty());
        assert(enc_plmn_support_items(dv.skip(i as int)) =~= Seq::<u8>::empty());
        assert(out@ =~= old(out)@ + out@.skip(old(out)@.len() as int));
        assert(out@.skip(old(out)@.len() as int) =~= enc_plmn_support_items(dv));
    }
}

/// Appends the entries of a list, in order.
fn encode_setup_resp_ies(items: &Vec<SetupResponseIe>, out: &mut Vec<u8>)
    requires
        wf_setup_resp_ies(items.deep_view()),
    ensures
        final(out)@ == old(out)@ + enc_setup_resp_ies(items.deep_view()),
{
    let ghost dv = items.deep_view();
    proof {
        assert(dv.skip(0) =~= dv);
        assert(out@.skip(out@.len() as int) =~= Seq::<u8>::empty());
        assert(out@.subrange(0, out@.len() as int) =~= out@);
    }
    let mut i: usize = 0;
    while i < items.len()
        invariant
            i <= items@.len(),
            dv == items.deep_view(),
            wf_setup_resp_ies(dv),
            out@.len() >= old(out)@.len(),
            out@.subrange(0, old(out)@.len() as int) == old(out)@,
            out@.skip(old(out)@.len() as int) + enc_setup_resp_ies(dv.skip(i as int)) == enc_setup_resp_ies(dv),
        decreases items@.len() - i,
    {
        let ghost before = out@;
        encode_setup_resp_ie(&items[i], out);
        proof {
            let rem = dv.skip(i as int);
            assert(rem[0] == dv[i as int]);
            assert(rem.skip(1) =~= dv.skip(i + 1));
            assert(enc_setup_resp_ies(rem) == enc_setup_resp_ie(dv[i as int]) + enc_setup_resp_ies(dv.skip(i + 1)));
            assert(out@ =~= before + enc_setup_resp_ie(dv[i as int]));
            assert(out@.subrange(0, old(out)@.len() as int) =~= old(out)@);
            assert(out@.skip(old(out)@.len() as int) =~= before.skip(old(out)@.len() as int)
                + enc_setup_resp_ie(dv[i as int]));
            assert(out@.skip(old(out)@.len() as int) + enc_setup_resp_ies(dv.skip(i + 1)) =~= enc_setup_resp_ies(dv));
        }
        i = i + 1;
    }
    proof {
        assert(dv.skip(i as int) =~= Seq::<SetupResponseIeView>::empty());
        assert(enc_setup_resp_ies(dv.skip(i as int)) =~= Seq::<u8>::empty());
        assert(out@ =~= old(out)@ + out@.skip(old(out)@.len() as int));
        assert(out@.skip(old(out)@.len() as int) =~= enc_setup_resp_ies(dv));
    }
}

/// Appends an NGSetupRequest.
fn encode_setup_request(m: &NgSetupRequest, out: &mut Vec<u8>)
    requires
        wf_setup_request(m.deep_view()),
    ensures
        final(out)@ == old(out)@ + enc_setup_request(m.deep_view()),
{
    push_u16(out, m.protocol_ies.len() as u16);
    encode_setup_req_ies(&m.protocol_ies, out);
    proof {
        assert(out@ =~= old(out)@ + enc_setup_request(m.deep_view()));
    }
}

/// Appends an InitialUEMessage.
fn encode_initial_ue_message(m: &InitialUeMessage, out: &mut Vec<u8>)
    requires
        wf_initial_ue_message(m.deep_view()),
    ensures
        final(out)@ == old(out)@ + enc_initial_ue_message(m.deep_view()),
{
    push_u16(out, m.protocol_ies.len() as u16);
    encode_initial_ue_ies(&m.protocol_ies, out);
    proof {
        assert(out@ =~= old(out)@ + enc_initial_ue_message(m.deep_view()));
    }
}

/// Appends an NGSetupResponse.
fn encode_setup_response(m: &NgSetupResponse, out: &mut Vec<u8>)
    requires
        wf_setup_response(m.deep_view()),
    ensures
        final(out)@ == old(out)@ + enc_setup_response(m.deep_view()),
{
    push_u16(out, m.protocol_ies.len() as u16);
    encode_setup_resp_ies(&m.protocol_ies, out);
    proof {
        assert(out@ =~= old(out)@ + enc_setup_response(m.deep_view()));
    }
}

/// Appends the procedure value of an initiating message.
fn encode_init_value(v: &InitiatingMessageValue, out: &mut Vec<u8>)
    requires
        (match v.deep_view() {
            InitiatingMessageValueView::NgSetup(x) => wf_setup_request(x),
            InitiatingMessageValueView::InitialUeMessage(x) => wf_initial_ue_message(x),
            _ => true,
        }),
    ensures
        final(out)@ == old(out)@ + enc_init_value(v.deep_view()),
{
    match v {
        InitiatingMessageValue::NgSetup(x) => encode_setup_request(x, out),
        InitiatingMessageValue::InitialUeMessage(x) => encode_initial_ue_message(x, out),
        InitiatingMessageValue::UplinkNasTransport(x) => crate::bytes::append_bytes(
            out,
            &x.protocol_ies,
        ),
        InitiatingMessageValue::Unsupported(b) => crate::bytes::append_bytes(out, b),
    }
}

/// Appends an initiating message.
fn encode_initiating(m: &InitiatingMessage, out: &mut Vec<u8>)
    requires
        wf_initiating(m.deep_view()),
    ensures
        final(out)@ == old(out)@ + enc_initiating(m.deep_view()),
{
    out.push(m.procedure_code);
    push_crit(out, m.criticality);
    let mut vb: Vec<u8> = Vec::new();
    encode_init_value(&m.value, &mut vb);
    push_bytes(out, &vb);
    proof {
        assert(out@ =~= old(out)@ + enc_initiating(m.deep_view()));
    }
}

/// Appends the procedure value of a successful outcome.
fn encode_succ_value(v: &SuccessfulOutcomeValue, out: &mut Vec<u8>)
    requires
        (match v.deep_view() {
            SuccessfulOutcomeValueView::NgSetup(x) => wf_setup_response(x),
            _ => true,
        }),
    ensures
        final(out)@ == old(out)@ + enc_succ_value(v.deep_view()),
{
    match v {
        SuccessfulOutcomeValue::NgSetup(x) => encode_setup_response(x, out),
        SuccessfulOutcomeValue::Unsupported(b) => crate::bytes::append_bytes(out, b),
    }
}

/// Appends a successful outcome.
fn encode_successful(m: &SuccessfulOutcome, out: &mut Vec<u8>)
    requires
        wf_successful(m.deep_view()),
    ensures
        final(out)@ == old(out)@ + enc_successful(m.deep_view()),
{
    out.push(m.procedure_code);
    push_crit(out, m.criticality);
    let mut vb: Vec<u8> = Vec::new();
    encode_succ_value(&m.value, &mut vb);
    push_bytes(out, &vb);
    proof {
        assert(out@ =~= old(out)@ + enc_successful(m.deep_view()));
    }
}

/// Appends an unsuccessful outcome.
fn encode_unsuccessful(m: &UnsuccessfulOutcome, out: &mut Vec<u8>)
    requires
        wf_unsuccessful(m.deep_view()),
    ensures
        final(out)@ == old(out)@ + enc_unsuccessful(m.deep_view()),
{
    out.push(m.procedure_code);
    push_crit(out, m.criticality);
    push_bytes(out, &m.value);
    proof {
        assert(out@ =~= old(out)@ + enc_unsuccessful(m.deep_view()));
    }
}

/// Encodes a protocol data unit into a fresh buffer.
pub fn encode_pdu(pdu: &NgapPdu) -> (r: Vec<u8>)
    requires
        wf_pdu(pdu.deep_view()),
    ensures
        r@ == enc_pdu(pdu.deep_view()),
{
    let mut out: Vec<u8> = Vec::new();
    match pdu {
        NgapPdu::InitiatingMessage(m) => {
            out.push(0);
            encode_initiating(m, &mut out);
        },
        NgapPdu::SuccessfulOutcome(m) => {
            out.push(1);
            encode_successful(m, &mut out);
        },
        NgapPdu::UnsuccessfulOutcome(m) => {
            out.push(2);
            encode_unsuccessful(m, &mut out);
        },
    }
    proof {
        assert(out@ =~= enc_pdu(pdu.deep_view()));
    }
    out
}


// ---------------------------------------------------------------------------
// The executable decoder. Each function advances the index over exactly the
// bytes its specification consumes, and fails on anything else: a malformed
// buffer can make it return nothing, never panic.
// ---------------------------------------------------------------------------

/// Reads a big-endian 16-bit integer at the index.
fn dec_u16_at(buf: &Vec<u8>, i: &mut usize) -> (r: Option<u16>)
    requires
        *old(i) <= buf@.len(),
    ensures
        *old(i) <= *final(i),
        *final(i) <= buf@.len(),
        (match dec_u16(buf@.skip(*old(i) as int)) {
            Some(p) => r matches Some(x) && x == p.0 && *final(i) == *old(i) + p.1,
            None => r is None && *final(i) == *old(i),
        }),
{
    if buf.len() - *i < 2 {
        return None;
    }
    let hi = buf[*i];
    let lo = buf[*i + 1];
    *i = *i + 2;
    Some(hi as u16 * 256 + lo as u16)
}

/// Reads a big-endian 32-bit integer at the index.
fn dec_u32_at(buf: &Vec<u8>, i: &mut usize) -> (r: Option<u32>)
    requires
        *old(i) <= buf@.len(),
    ensures
        *old(i) <= *final(i),
        *final(i) <= buf@.len(),
        (match dec_u32(buf@.skip(*old(i) as int)) {
            Some(p) => r matches Some(x) && x == p.0 && *final(i) == *old(i) + p.1,
            None => r is None && *final(i) == *old(i),
        }),
{
    if buf.len() - *i < 4 {
        return None;
    }
    let b0 = buf[*i];
    let b1 = buf[*i + 1];
    let b2 = buf[*i + 2];
    let b3 = buf[*i + 3];
    *i = *i + 4;
    Some(b0 as u32 * 0x1000000 + b1 as u32 * 0x10000 + b2 as u32 * 256 + b3 as u32)
}

/// Reads a criticality marker at the index.
fn dec_crit_at(buf: &Vec<u8>, i: &mut usize) -> (r: Option<Criticality>)
    requires
        *old(i) <= buf@.len(),
    ensures
        *old(i) <= *final(i),
        *final(i) <= buf@.len(),
        (match dec_crit(buf@.skip(*old(i) as int)) {
            Some(p) => r matches Some(x) && x == p.0 && *final(i) == *old(i) + p.1,
            None => r is None,
        }),
{
    if buf.len() - *i < 1 {
        return None;
    }
    let b = buf[*i];
    if b == 0 {
        *i = *i + 1;
        Some(Criticality::Reject)
    } else if b == 1 {
        *i = *i + 1;
        Some(Criticality::Ignore)
    } else if b == 2 {
        *i = *i + 1;
        Some(Criticality::Notify)
    } else {
        None
    }
}

/// Reads a length-prefixed byte string at the index.
fn dec_bytes_at(buf: &Vec<u8>, i: &mut usize) -> (r: Option<Vec<u8>>)
    requires
        *old(i) <= buf@.len(),
    ensures
        *old(i) <= *final(i),
        *final(i) <= buf@.len(),
        (match dec_bytes(buf@.skip(*old(i) as int)) {
            Some(p) => r matches Some(x) && x@ == p.0 && *final(i) == *old(i) + p.1,
            None => r is None,
        }),
{
    let ghost i0 = *old(i) as int;
    let n = match dec_u16_at(buf, i) {
        None => {
            return None;
        },
        Some(n) => n,
    };
    if buf.len() - *i < n as usize {
        return None;
    }
    let start = *i;
    let r = crate::bytes::slice_range(buf, start, start + n as usize);
    *i = start + n as usize;
    proof {
        assert(r@ =~= buf@.skip(i0).subrange(2, 2 + n as int));
    }
    Some(r)
}

/// Reads a RAN node identity at the index.
fn dec_ran_node_id_at(buf: &Vec<u8>, i: &mut usize) -> (r: Option<GlobalRanNodeId>)
    requires
        *old(i) <= buf@.len(),
    ensures
        *old(i) <= *final(i),
        *final(i) <= buf@.len(),
        (match dec_ran_node_id(buf@.skip(*old(i) as int)) {
            Some(p) => r matches Some(x) && x.deep_view() == p.0 && *final(i) == *old(i) + p.1,
            None => r is None,
        }),
{
    let ghost i0 = *old(i) as int;
    if buf.len() - *i < 1 {
        return None;
    }
    let tag = buf[*i];
    *i = *i + 1;
    proof {
        lemma_skip_of_skip(buf@, i0, 1);
    }
    let b = match dec_bytes_at(buf, i) {
        None => {
            return None;
        },
        Some(b) => b,
    };
    if tag == 0 {
        Some(GlobalRanNodeId::GlobalGnbId(b))
    } else if tag == 1 {
        Some(GlobalRanNodeId::GlobalNgEnbId(b))
    } else if tag == 2 {
        Some(GlobalRanNodeId::GlobalN3IwfId(b))
    } else {
        None
    }
}

/// Reads a user location at the index.
fn dec_user_location_at(buf: &Vec<u8>, i: &mut usize) -> (r: Option<UserLocationInformation>)
    requires
        *old(i) <= buf@.len(),
    ensures
        *old(i) <= *final(i),
        *final(i) <= buf@.len(),
        (match dec_user_location(buf@.skip(*old(i) as int)) {
            Some(p) => r matches Some(x) && x.deep_view() == p.0 && *final(i) == *old(i) + p.1,
            None => r is None,
        }),
{
    let ghost i0 = *old(i) as int;
    if buf.len() - *i < 1 {
        return None;
    }
    let tag = buf[*i];
    *i = *i + 1;
    proof {
        lemma_skip_of_skip(buf@, i0, 1);
    }
    let b = match dec_bytes_at(buf, i) {
        None => {
            return None;
        },
        Some(b) => b,
    };
    if tag == 0 {
        Some(UserLocationInformation::Nr(b))
    } else if tag == 1 {
        Some(UserLocationInformation::Eutra(b))
    } else if tag == 2 {
        Some(UserLocationInformation::N3iwf(b))
    } else {
        None
    }
}

/// Reads one NGSetupRequest entry at the index.
fn dec_setup_req_ie_at(buf: &Vec<u8>, i: &mut usize) -> (r: Option<SetupRequestIe>)
    requires
        *old(i) <= buf@.len(),
    ensures
        *old(i) <= *final(i),
        *final(i) <= buf@.len(),
        (match dec_setup_req_ie(buf@.skip(*old(i) as int)) {
            Some(p) => r matches Some(x) && x.deep_view() == p.0 && *final(i) == *old(i) + p.1,
            None => r is None,
        }),
{
    let ghost i0 = *old(i) as int;
    let id = match dec_u16_at(buf, i) {
        None => {
            return None;
        },
        Some(x) => x,
    };
    proof {
        lemma_skip_of_skip(buf@, i0, 2);
    }
    let c = match dec_crit_at(buf, i) {
        None => {
            return None;
        },
        Some(x) => x,
    };
    proof {
        lemma_skip_of_skip(buf@, i0, 3);
    }
    let vb = match dec_bytes_at(buf, i) {
        None => {
            return None;
        },
        Some(x) => x,
    };
    let v = match dec_setup_req_ie_value_exec(id, vb) {
        None => {
            return None;
        },
        Some(x) => x,
    };
    Some(SetupRequestIe { id, criticality: c, value: v })
}

/// Reads one InitialUEMessage entry at the index.
fn dec_initial_ue_ie_at(buf: &Vec<u8>, i: &mut usize) -> (r: Option<InitialUeIe>)
    requires
        *old(i) <= buf@.len(),
    ensures
        *old(i) <= *final(i),
        *final(i) <= buf@.len(),
        (match dec_initial_ue_ie(buf@.skip(*old(i) as int)) {
            Some(p) => r matches Some(x) && x.deep_view() == p.0 && *final(i) == *old(i) + p.1,
            None => r is None,
        }),
{
    let ghost i0 = *old(i) as int;
    let id = match dec_u16_at(buf, i) {
        None => {
            return None;
        },
        Some(x) => x,
    };
    proof {
        lemma_skip_of_skip(buf@, i0, 2);
    }
    let c = match dec_crit_at(buf, i) {
        None => {
            return None;
        },
        Some(x) => x,
    };
    proof {
        lemma_skip_of_skip(buf@, i0, 3);
    }
    let vb = match dec_bytes_at(buf, i) {
        None => {
            return None;
        },
        Some(x) => x,
    };
    let v = match dec_initial_ue_ie_value_exec(id, vb) {
        None => {
            return None;
        },
        Some(x) => x,
    };
    Some(InitialUeIe { id, criticality: c, value: v })
}

/// Reads one NGSetupResponse entry at the index.
fn dec_setup_resp_ie_at(buf: &Vec<u8>, i: &mut usize) -> (r: Option<SetupResponseIe>)
    requires
        *old(i) <= buf@.len(),
    ensures
        *old(i) <= *final(i),
        *final(i) <= buf@.len(),
        (match dec_setup_resp_ie(buf@.skip(*old(i) as int)) {
            Some(p) => r matches Some(x) && x.deep_view() == p.0 && *final(i) == *old(i) + p.1,
            None => r is None,
        }),
{
    let ghost i0 = *old(i) as int;
    let id = match dec_u16_at(buf, i) {
        None => {
            return None;
        },
        Some(x) => x,
    };
    proof {
        lemma_skip_of_skip(buf@, i0, 2);
    }
    let c = match dec_crit_at(buf, i) {
        None => {
            return None;
        },
        Some(x) => x,
    };
    proof {
        lemma_skip_of_skip(buf@, i0, 3);
    }
    let vb = match dec_bytes_at(buf, i) {
        None => {
            return None;
        },
        Some(x) => x,
    };
    let v = match dec_setup_resp_ie_value_exec(id, vb) {
        None => {
            return None;
        },
        Some(x) => x,
    };
    Some(SetupResponseIe { id, criticality: c, value: v })
}

/// Reads `n` NGSetupRequest entries at the index.
fn dec_setup_req_ies_at(buf: &Vec<u8>, i: &mut usize, n: u16) -> (r: Option<Vec<SetupRequestIe>>)
    requires
        *old(i) <= buf@.len(),
    ensures
        *old(i) <= *final(i),
        *final(i) <= buf@.len(),
        (match dec_setup_req_ies(buf@.skip(*old(i) as int), n as int) {
            Some(p) => r matches Some(x) && x.deep_view() == p.0 && *final(i) == *old(i) + p.1,
            None => r is None,
        }),
{
    let ghost i0 = *old(i) as int;
    let mut acc: Vec<SetupRequestIe> = Vec::new();
    let mut k: u16 = 0;
    proof {
        assert(acc.deep_view() =~= Seq::<SetupRequestIeView>::empty());
        assert(buf@.skip(i0).skip(0) =~= buf@.skip(i0));
    }
    while k < n
        invariant
            *old(i) <= *i <= buf@.len(),
            k <= n,
            acc.deep_view().len() == k as int,
            (match dec_setup_req_ies(buf@.skip(i0), n as int) {
                Some(p) => (match dec_setup_req_ies(buf@.skip(*i as int), n as int - k as int) {
                    Some(q) => p.0 == acc.deep_view() + q.0 && p.1 == (*i - i0) + q.1,
                    None => false,
                }),
                None => dec_setup_req_ies(buf@.skip(*i as int), n as int - k as int) is None,
            }),
            i0 == *old(i) as int,
        decreases n - k,
    {
        let ghost icur = *i as int;
        let ghost accv = acc.deep_view();
        let item = match dec_setup_req_ie_at(buf, i) {
            None => {
                return None;
            },
            Some(x) => x,
        };
        proof {
            let p = dec_setup_req_ie(buf@.skip(icur)).unwrap();
            lemma_skip_of_skip(buf@, icur, p.1);
        }
        acc.push(item);
        proof {
            assert(acc.deep_view() =~= accv.push(item.deep_view()));
            let p = dec_setup_req_ie(buf@.skip(icur)).unwrap();
            match dec_setup_req_ies(buf@.skip(*i as int), n as int - k as int - 1) {
                Some(q) => {
                    assert(accv + (seq![p.0] + q.0) =~= acc.deep_view() + q.0);
                },
                None => {},
            }
        }
        k = k + 1;
    }
    proof {
        assert(acc.deep_view() + Seq::<SetupRequestIeView>::empty() =~= acc.deep_view());
    }
    Some(acc)
}

/// Reads `n` InitialUEMessage entries at the index.
fn dec_initial_ue_ies_at(buf: &Vec<u8>, i: &mut usize, n: u16) -> (r: Option<Vec<InitialUeIe>>)
    requires
        *old(i) <= buf@.len(),
    ensures
        *old(i) <= *final(i),
        *final(i) <= buf@.len(),
        (match dec_initial_ue_ies(buf@.skip(*old(i) as int), n as int) {
            Some(p) => r matches Some(x) && x.deep_view() == p.0 && *final(i) == *old(i) + p.1,
            None => r is None,
        }),
{
    let ghost i0 = *old(i) as int;
    let mut acc: Vec<InitialUeIe> = Vec::new();
    let mut k: u16 = 0;
    proof {
        assert(acc.deep_view() =~= Seq::<InitialUeIeView>::empty());
        assert(buf@.skip(i0).skip(0) =~= buf@.skip(i0));
    }
    while k < n
        invariant
            *old(i) <= *i <= buf@.len(),
            k <= n,
            acc.deep_view().len() == k as int,
            (match dec_initial_ue_ies(buf@.skip(i0), n as int) {
                Some(p) => (match dec_initial_ue_ies(buf@.skip(*i as int), n as int - k as int) {
                    Some(q) => p.0 == acc.deep_view() + q.0 && p.1 == (*i - i0) + q.1,
                    None => false,
                }),
                None => dec_initial_ue_ies(buf@.skip(*i as int), n as int - k as int) is None,
            }),
            i0 == *old(i) as int,
        decreases n - k,
    {
        let ghost icur = *i as int;
        let ghost accv = acc.deep_view();
        let item = match dec_initial_ue_ie_at(buf, i) {
            None => {
                return None;
            },
            Some(x) => x,
        };
        proof {
            let p = dec_initial_ue_ie(buf@.skip(icur)).unwrap();
            lemma_skip_of_skip(buf@, icur, p.1);
        }
        acc.push(item);
        proof {
            assert(acc.deep_view() =~= accv.push(item.deep_view()));
            let p = dec_initial_ue_ie(buf@.skip(icur)).unwrap();
            match dec_initial_ue_ies(buf@.skip(*i as int), n as int - k as int - 1) {
                Some(q) => {
                    assert(accv + (seq![p.0] + q.0) =~= acc.deep_view() + q.0);
                },
                None => {},
            }
        }
        k = k + 1;
    }
    proof {
        assert(acc.deep_view() + Seq::<InitialUeIeView>::empty() =~= acc.deep_view());
    }
    Some(acc)
}

/// Reads `n` NGSetupResponse entries at the index.
fn dec_setup_resp_ies_at(buf: &Vec<u8>, i: &mut usize, n: u16) -> (r: Option<Vec<SetupResponseIe>>)
    requires
        *old(i) <= buf@.len(),
    ensures
        *old(i) <= *final(i),
        *final(i) <= buf@.len(),
        (match dec_setup_resp_ies(buf@.skip(*old(i) as int), n as int) {
            Some(p) => r matches Some(x) && x.deep_view() == p.0 && *final(i) == *old(i) + p.1,
            None => r is None,
        }),
{
    let ghost i0 = *old(i) as int;
    let mut acc: Vec<SetupResponseIe> = Vec::new();
    let mut k: u16 = 0;
    proof {
        assert(acc.deep_view() =~= Seq::<SetupResponseIeView>::empty());
        assert(buf@.skip(i0).skip(0) =~= buf@.skip(i0));
    }
    while k < n
        invariant
            *old(i) <= *i <= buf@.len(),
            k <= n,
            acc.deep_view().len() == k as int,
            (match dec_setup_resp_ies(buf@.skip(i0), n as int) {
                Some(p) => (match dec_setup_resp_ies(buf@.skip(*i as int), n as int - k as int) {
                    Some(q) => p.0 == acc.deep_view() + q.0 && p.1 == (*i - i0) + q.1,
                    None => false,
                }),
                None => dec_setup_resp_ies(buf@.skip(*i as int), n as int - k as int) is None,
            }),
            i0 == *old(i) as int,
        decreases n - k,
    {
        let ghost icur = *i as int;
        let ghost accv = acc.deep_view();
        let item = match dec_setup_resp_ie_at(buf, i) {
            None => {
                return None;
            },
            Some(x) => x,
        };
        proof {
            let p = dec_setup_resp_ie(buf@.skip(icur)).unwrap();
            lemma_skip_of_skip(buf@, icur, p.1);
        }
        acc.push(item);
        proof {
            assert(acc.deep_view() =~= accv.push(item.deep_view()));
            let p = dec_setup_resp_ie(buf@.skip(icur)).unwrap();
            match dec_setup_resp_ies(buf@.skip(*i as int), n as int - k as int - 1) {
                Some(q) => {
                    assert(accv + (seq![p.0] + q.0) =~= acc.deep_view() + q.0);
                },
                None => {},
            }
        }
        k = k + 1;
    }
    proof {
        assert(acc.deep_view() + Seq::<SetupResponseIeView>::empty() =~= acc.deep_view());
    }
    Some(acc)
}

/// Reads `n` served-GUAMI entries at the index.
fn dec_guami_items_at(buf: &Vec<u8>, i: &mut usize, n: u16) -> (r: Option<Vec<ServedGuamiItem>>)
    requires
        *old(i) <= buf@.len(),
    ensures
        *old(i) <= *final(i),
        *final(i) <= buf@.len(),
        (match dec_guami_items(buf@.skip(*old(i) as int), n as int) {
            Some(p) => r matches Some(x) && x.deep_view() == p.0 && *final(i) == *old(i) + p.1,
            None => r is None,
        }),
{
    let ghost i0 = *old(i) as int;
    let mut acc: Vec<ServedGuamiItem> = Vec::new();
    let mut k: u16 = 0;
    proof {
        assert(acc.deep_view() =~= Seq::<ServedGuamiItemView>::empty());
        assert(buf@.skip(i0).skip(0) =~= buf@.skip(i0));
    }
    while k < n
        invariant
            *old(i) <= *i <= buf@.len(),
            k <= n,
            acc.deep_view().len() == k as int,
            (match dec_guami_items(buf@.skip(i0), n as int) {
                Some(p) => (match dec_guami_items(buf@.skip(*i as int), n as int - k as int) {
                    Some(q) => p.0 == acc.deep_view() + q.0 && p.1 == (*i - i0) + q.1,
                    None => false,
                }),
                None => dec_guami_items(buf@.skip(*i as int), n as int - k as int) is None,
            }),
            i0 == *old(i) as int,
        decreases n - k,
    {
        let ghost icur = *i as int;
        let ghost accv = acc.deep_view();
        let item = match dec_guami_item_at(buf, i) {
            None => {
                return None;
            },
            Some(x) => x,
        };
        proof {
            let p = dec_guami_item(buf@.skip(icur)).unwrap();
            lemma_skip_of_skip(buf@, icur, p.1);
        }
        acc.push(item);
        proof {
            assert(acc.deep_view() =~= accv.push(item.deep_view()));
            let p = dec_guami_item(buf@.skip(icur)).unwrap();
            match dec_guami_items(buf@.skip(*i as int), n as int - k as int - 1) {
                Some(q) => {
                    assert(accv + (seq![p.0] + q.0) =~= acc.deep_view() + q.0);
                },
                None => {},
            }
        }
        k = k + 1;
    }
    proof {
        assert(acc.deep_view() + Seq::<ServedGuamiItemView>::empty() =~= acc.deep_view());
    }
    Some(acc)
}

/// Reads `n` slice-support entries at the index.
fn dec_snssais_at(buf: &Vec<u8>, i: &mut usize, n: u16) -> (r: Option<Vec<Snssai>>)
    requires
        *old(i) <= buf@.len(),
    ensures
        *old(i) <= *final(i),
        *final(i) <= buf@.len(),
        (match dec_snssais(buf@.skip(*old(i) as int), n as int) {
            Some(p) => r matches Some(x) && x.deep_view() == p.0 && *final(i) == *old(i) + p.1,
            None => r is None,
        }),
{
    let ghost i0 = *old(i) as int;
    let mut acc: Vec<Snssai> = Vec::new();
    let mut k: u16 = 0;
    proof {
        assert(acc.deep_view() =~= Seq::<SnssaiView>::empty());
        assert(buf@.skip(i0).skip(0) =~= buf@.skip(i0));
    }
    while k < n
        invariant
            *old(i) <= *i <= buf@.len(),
            k <= n,
            acc.deep_view().len() == k as int,
            (match dec_snssais(buf@.skip(i0), n as int) {
                Some(p) => (match dec_snssais(buf@.skip(*i as int), n as int - k as int) {
                    Some(q) => p.0 == acc.deep_view() + q.0 && p.1 == (*i - i0) + q.1,
                    None => false,
                }),
                None => dec_snssais(buf@.skip(*i as int), n as int - k as int) is None,
            }),
            i0 == *old(i) as int,
        decreases n - k,
    {
        let ghost icur = *i as int;
        let ghost accv = acc.deep_view();
        let item = match dec_snssai_at(buf, i) {
            None => {
                return None;
            },
            Some(x) => x,
        };
        proof {
            let p = dec_snssai(buf@.skip(icur)).unwrap();
            lemma_skip_of_skip(buf@, icur, p.1);
        }
        acc.push(item);
        proof {
            assert(acc.deep_view() =~= accv.push(item.deep_view()));
            let p = dec_snssai(buf@.skip(icur)).unwrap();
            match dec_snssais(buf@.skip(*i as int), n as int - k as int - 1) {
                Some(q) => {
                    assert(accv + (seq![p.0] + q.0) =~= acc.deep_view() + q.0);
                },
                None => {},
            }
        }
        k = k + 1;
    }
    proof {
        assert(acc.deep_view() + Seq::<SnssaiView>::empty() =~= acc.deep_view());
    }
    Some(acc)
}

/// Reads `n` PLMN-support entries at the index.
fn dec_plmn_support_items_at(buf: &Vec<u8>, i: &mut usize, n: u16) -> (r: Option<Vec<PlmnSupportItem>>)
    requires
        *old(i) <= buf@.len(),
    ensures
        *old(i) <= *final(i),
        *final(i) <= buf@.len(),
        (match dec_plmn_support_items(buf@.skip(*old(i) as int), n as int) {
            Some(p) => r matches Some(x) && x.deep_view() == p.0 && *final(i) == *old(i) + p.1,
            None => r is None,
        }),
{
    let ghost i0 = *old(i) as int;
    let mut acc: Vec<PlmnSupportItem> = Vec::new();
    let mut k: u16 = 0;
    proof {
        assert(acc.deep_view() =~= Seq::<PlmnSupportItemView>::empty());
        assert(buf@.skip(i0).skip(0) =~= buf@.skip(i0));
    }
    while k < n
        invariant
            *old(i) <= *i <= buf@.len(),
            k <= n,
            acc.deep_view().len() == k as int,
            (match dec_plmn_support_items(buf@.skip(i0), n as int) {
                Some(p) => (match dec_plmn_support_items(buf@.skip(*i as int), n as int - k as int) {
                    Some(q) => p.0 == acc.deep_view() + q.0 && p.1 == (*i - i0) + q.1,
                    None => false,
                }),
                None => dec_plmn_support_items(buf@.skip(*i as int), n as int - k as int) is None,
            }),
            i0 == *old(i) as int,
        decreases n - k,
    {
        let ghost icur = *i as int;
        let ghost accv = acc.deep_view();
        let item = match dec_plmn_support_item_at(buf, i) {
            None => {
                return None;
            },
            Some(x) => x,
        };
        proof {
            let p = dec_plmn_support_item(buf@.skip(icur)).unwrap();
            lemma_skip_of_skip(buf@, icur, p.1);
        }
        acc.push(item);
        proof {
            assert(acc.deep_view() =~= accv.push(item.deep_view()));
            let p = dec_plmn_support_item(buf@.skip(icur)).unwrap();
            match dec_plmn_support_items(buf@.skip(*i as int), n as int - k as int - 1) {
                Some(q) => {
                    assert(accv + (seq![p.0] + q.0) =~= acc.deep_view() + q.0);
                },
                None => {},
            }
        }
        k = k + 1;
    }
    proof {
        assert(acc.deep_view() + Seq::<PlmnSupportItemView>::empty() =~= acc.deep_view());
    }
    Some(acc)
}

/// Interprets the value bytes of an NGSetupRequest entry by its tag.
fn dec_setup_req_ie_value_exec(id: u16, vb: Vec<u8>) -> (r: Option<SetupRequestIeValue>)
    ensures
        (match dec_setup_req_ie_value(id, vb@) {
            Some(v) => r matches Some(x) && x.deep_view() == v,
            None => r is None,
        }),
{
    proof {
        assert(vb@.skip(0) =~= vb@);
    }
    if id == ID_GLOBAL_RAN_NODE_ID {
        let mut j: usize = 0;
        let g = match dec_ran_node_id_at(&vb, &mut j) {
            None => {
                return None;
            },
            Some(g) => g,
        };
        if j == vb.len() {
            Some(SetupRequestIeValue::GlobalRanNodeId(g))
        } else {
            None
        }
    } else if id == ID_SUPPORTED_TA_LIST {
        Some(SetupRequestIeValue::SupportedTaList(vb))
    } else if id == ID_DEFAULT_PAGING_DRX {
        if vb.len() == 1 {
            Some(SetupRequestIeValue::DefaultPagingDrx(vb[0]))
        } else {
            None
        }
    } else {
        Some(SetupRequestIeValue::Unrecognized(vb))
    }
}

/// Interprets the value bytes of an InitialUEMessage entry by its tag.
fn dec_initial_ue_ie_value_exec(id: u16, vb: Vec<u8>) -> (r: Option<InitialUeIeValue>)
    ensures
        (match dec_initial_ue_ie_value(id, vb@) {
            Some(v) => r matches Some(x) && x.deep_view() == v,
            None => r is None,
        }),
{
    proof {
        assert(vb@.skip(0) =~= vb@);
    }
    if id == ID_RAN_UE_NGAP_ID {
        let mut j: usize = 0;
        let x = match dec_u32_at(&vb, &mut j) {
            None => {
                return None;
            },
            Some(x) => x,
        };
        if j == vb.len() {
            Some(InitialUeIeValue::RanUeNgapId(x))
        } else {
            None
        }
    } else if id == ID_NAS_PDU {
        Some(InitialUeIeValue::NasPdu(vb))
    } else if id == ID_USER_LOCATION_INFORMATION {
        let mut j: usize = 0;
        let u = match dec_user_location_at(&vb, &mut j) {
            None => {
                return None;
            },
            Some(u) => u,
        };
        if j == vb.len() {
            Some(InitialUeIeValue::UserLocationInformation(u))
        } else {
            None
        }
    } else {
        Some(InitialUeIeValue::Unrecognized(vb))
    }
}

/// Reads one served-GUAMI entry at the index.
fn dec_guami_item_at(buf: &Vec<u8>, i: &mut usize) -> (r: Option<ServedGuamiItem>)
    requires
        *old(i) <= buf@.len(),
    ensures
        *old(i) <= *final(i),
        *final(i) <= buf@.len(),
        (match dec_guami_item(buf@.skip(*old(i) as int)) {
            Some(p) => r matches Some(x) && x.deep_view() == p.0 && *final(i) == *old(i) + p.1,
            None => r is None,
        }),
{
    let ghost i0 = *old(i) as int;
    let plmn = match dec_bytes_at(buf, i) {
        None => {
            return None;
        },
        Some(x) => x,
    };
    if buf.len() - *i < 4 {
        return None;
    }
    let region = buf[*i];
    let set_id = buf[*i + 1] as u16 * 256 + buf[*i + 2] as u16;
    let pointer = buf[*i + 3];
    proof {
        let s = buf@.skip(i0);
        let k = dec_bytes(s).unwrap().1;
        assert(s.skip(k + 1)[0] == buf@[i0 + k + 1]);
        assert(s.skip(k + 1)[1] == buf@[i0 + k + 2]);
        assert(s[k] == buf@[i0 + k]);
        assert(s[k + 3] == buf@[i0 + k + 3]);
    }
    *i = *i + 4;
    Some(
        ServedGuamiItem {
            guami: Guami {
                plmn_identity: PlmnIdentity(plmn),
                amf_region_id: region,
                amf_set_id: set_id,
                amf_pointer: pointer,
            },
        },
    )
}

/// Reads one slice-support entry at the index.
fn dec_snssai_at(buf: &Vec<u8>, i: &mut usize) -> (r: Option<Snssai>)
    requires
        *old(i) <= buf@.len(),
    ensures
        *old(i) <= *final(i),
        *final(i) <= buf@.len(),
        (match dec_snssai(buf@.skip(*old(i) as int)) {
            Some(p) => r matches Some(x) && x.deep_view() == p.0 && *final(i) == *old(i) + p.1,
            None => r is None,
        }),
{
    let sst = match dec_bytes_at(buf, i) {
        None => {
            return None;
        },
        Some(x) => x,
    };
    Some(Snssai { sst })
}

/// Reads one PLMN-support entry at the index.
fn dec_plmn_support_item_at(buf: &Vec<u8>, i: &mut usize) -> (r: Option<PlmnSupportItem>)
    requires
        *old(i) <= buf@.len(),
    ensures
        *old(i) <= *final(i),
        *final(i) <= buf@.len(),
        (match dec_plmn_support_item(buf@.skip(*old(i) as int)) {
            Some(p) => r matches Some(x) && x.deep_view() == p.0 && *final(i) == *old(i) + p.1,
            None => r is None,
        }),
{
    let ghost i0 = *old(i) as int;
    let plmn = match dec_bytes_at(buf, i) {
        None => {
            return None;
        },
        Some(x) => x,
    };
    proof {
        lemma_skip_of_skip(buf@, i0, *i - *old(i));
    }
    let cnt = match dec_u16_at(buf, i) {
        None => {
            return None;
        },
        Some(x) => x,
    };
    proof {
        lemma_skip_of_skip(buf@, i0, *i - *old(i));
    }
    let slices = match dec_snssais_at(buf, i, cnt) {
        None => {
            return None;
        },
        Some(x) => x,
    };
    Some(PlmnSupportItem { plmn_identity: PlmnIdentity(plmn), slice_support_list: slices })
}

/// Interprets the value bytes of an NGSetupResponse entry by its tag.
fn dec_setup_resp_ie_value_exec(id: u16, vb: Vec<u8>) -> (r: Option<SetupResponseIeValue>)
    ensures
        (match dec_setup_resp_ie_value(id, vb@) {
            Some(v) => r matches Some(x) && x.deep_view() == v,
            None => r is None,
        }),
{
    proof {
        assert(vb@.skip(0) =~= vb@);
    }
    if id == ID_AMF_NAME {
        Some(SetupResponseIeValue::AmfName(vb))
    } else if id == ID_SERVED_GUAMI_LIST {
        let mut j: usize = 0;
        let cnt = match dec_u16_at(&vb, &mut j) {
            None => {
                return None;
            },
            Some(x) => x,
        };
        let items = match dec_guami_items_at(&vb, &mut j, cnt) {
            None => {
                return None;
            },
            Some(x) => x,
        };
        if j == vb.len() {
            Some(SetupResponseIeValue::ServedGuamiList(items))
        } else {
            None
        }
    } else if id == ID_RELATIVE_AMF_CAPACITY {
        if vb.len() == 1 {
            Some(SetupResponseIeValue::RelativeAmfCapacity(vb[0]))
        } else {
            None
        }
    } else if id == ID_PLMN_SUPPORT_LIST {
        let mut j: usize = 0;
        let cnt = match dec_u16_at(&vb, &mut j) {
            None => {
                return None;
            },
            Some(x) => x,
        };
        let items = match dec_plmn_support_items_at(&vb, &mut j, cnt) {
            None => {
                return None;
            },
            Some(x) => x,
        };
        if j == vb.len() {
            Some(SetupResponseIeValue::PlmnSupportList(items))
        } else {
            None
        }
    } else {
        Some(SetupResponseIeValue::Unrecognized(vb))
    }
}

/// Reads an NGSetupRequest at the index.
fn dec_setup_request_at(buf: &Vec<u8>, i: &mut usize) -> (r: Option<NgSetupRequest>)
    requires
        *old(i) <= buf@.len(),
    ensures
        *old(i) <= *final(i),
        *final(i) <= buf@.len(),
        (match dec_setup_request(buf@.skip(*old(i) as int)) {
            Some(p) => r matches Some(x) && x.deep_view() == p.0 && *final(i) == *old(i) + p.1,
            None => r is None,
        }),
{
    let ghost i0 = *old(i) as int;
    let cnt = match dec_u16_at(buf, i) {
        None => {
            return None;
        },
        Some(x) => x,
    };
    proof {
        lemma_skip_of_skip(buf@, i0, 2);
    }
    let ies = match dec_setup_req_ies_at(buf, i, cnt) {
        None => {
            return None;
        },
        Some(x) => x,
    };
    Some(NgSetupRequest { protocol_ies: ies })
}

/// Reads an InitialUEMessage at the index.
fn dec_initial_ue_message_at(buf: &Vec<u8>, i: &mut usize) -> (r: Option<InitialUeMessage>)
    requires
        *old(i) <= buf@.len(),
    ensures
        *old(i) <= *final(i),
        *final(i) <= buf@.len(),
        (match dec_initial_ue_message(buf@.skip(*old(i) as int)) {
            Some(p) => r matches Some(x) && x.deep_view() == p.0 && *final(i) == *old(i) + p.1,
            None => r is None,
        }),
{
    let ghost i0 = *old(i) as int;
    let cnt = match dec_u16_at(buf, i) {
        None => {
            return None;
        },
        Some(x) => x,
    };
    proof {
        lemma_skip_of_skip(buf@, i0, 2);
    }
    let ies = match dec_initial_ue_ies_at(buf, i, cnt) {
        None => {
            return None;
        },
        Some(x) => x,
    };
    Some(InitialUeMessage { protocol_ies: ies })
}

/// Reads an NGSetupResponse at the index.
fn dec_setup_response_at(buf: &Vec<u8>, i: &mut usize) -> (r: Option<NgSetupResponse>)
    requires
        *old(i) <= buf@.len(),
    ensures
        *old(i) <= *final(i),
        *final(i) <= buf@.len(),
        (match dec_setup_response(buf@.skip(*old(i) as int)) {
            Some(p) => r matches Some(x) && x.deep_view() == p.0 && *final(i) == *old(i) + p.1,
            None => r is None,
        }),
{
    let ghost i0 = *old(i) as int;
    let cnt = match dec_u16_at(buf, i) {
        None => {
            return None;
        },
        Some(x) => x,
    };
    proof {
        lemma_skip_of_skip(buf@, i0, 2);
    }
    let ies = match dec_setup_resp_ies_at(buf, i, cnt) {
        None => {
            return None;
        },
        Some(x) => x,
    };
    Some(NgSetupResponse { protocol_ies: ies })
}

/// Interprets the procedure value of an initiating message by its code.
fn dec_init_value_exec(code: u8, vb: Vec<u8>) -> (r: Option<InitiatingMessageValue>)
    ensures
        (match dec_init_value(code, vb@) {
            Some(v) => r matches Some(x) && x.deep_view() == v,
            None => r is None,
        }),
{
    proof {
        assert(vb@.skip(0) =~= vb@);
    }
    if code == ID_NG_SETUP {
        let mut j: usize = 0;
        let m = match dec_setup_request_at(&vb, &mut j) {
            None => {
                return None;
            },
            Some(x) => x,
        };
        if j == vb.len() {
            Some(InitiatingMessageValue::NgSetup(m))
        } else {
            None
        }
    } else if code == ID_INITIAL_UE_MESSAGE {
        let mut j: usize = 0;
        let m = match dec_initial_ue_message_at(&vb, &mut j) {
            None => {
                return None;
            },
            Some(x) => x,
        };
        if j == vb.len() {
            Some(InitiatingMessageValue::InitialUeMessage(m))
        } else {
            None
        }
    } else if code == ID_UPLINK_NAS_TRANSPORT {
        Some(InitiatingMessageValue::UplinkNasTransport(UplinkNasTransport { protocol_ies: vb }))
    } else {
        Some(InitiatingMessageValue::Unsupported(vb))
    }
}

/// Interprets the procedure value of a successful outcome by its code.
fn dec_succ_value_exec(code: u8, vb: Vec<u8>) -> (r: Option<SuccessfulOutcomeValue>)
    ensures
        (match dec_succ_value(code, vb@) {
            Some(v) => r matches Some(x) && x.deep_view() == v,
            None => r is None,
        }),
{
    proof {
        assert(vb@.skip(0) =~= vb@);
    }
    if code == ID_NG_SETUP {
        let mut j: usize = 0;
        let m = match dec_setup_response_at(&vb, &mut j) {
            None => {
                return None;
            },
            Some(x) => x,
        };
        if j == vb.len() {
            Some(SuccessfulOutcomeValue::NgSetup(m))
        } else {
            None
        }
    } else {
        Some(SuccessfulOutcomeValue::Unsupported(vb))
    }
}

/// Reads an initiating message at the index.
fn dec_initiating_at(buf: &Vec<u8>, i: &mut usize) -> (r: Option<InitiatingMessage>)
    requires
        *old(i) <= buf@.len(),
    ensures
        *old(i) <= *final(i),
        *final(i) <= buf@.len(),
        (match dec_initiating(buf@.skip(*old(i) as int)) {
            Some(p) => r matches Some(x) && x.deep_view() == p.0 && *final(i) == *old(i) + p.1,
            None => r is None,
        }),
{
    let ghost i0 = *old(i) as int;
    if buf.len() - *i < 1 {
        return None;
    }
    let code = buf[*i];
    *i = *i + 1;
    proof {
        lemma_skip_of_skip(buf@, i0, 1);
    }
    let c = match dec_crit_at(buf, i) {
        None => {
            return None;
        },
        Some(x) => x,
    };
    proof {
        lemma_skip_of_skip(buf@, i0, 2);
    }
    let vb = match dec_bytes_at(buf, i) {
        None => {
            return None;
        },
        Some(x) => x,
    };
    let v = match dec_init_value_exec(code, vb) {
        None => {
            return None;
        },
        Some(x) => x,
    };
    Some(InitiatingMessage { procedure_code: code, criticality: c, value: v })
}

/// Reads a successful outcome at the index.
fn dec_successful_at(buf: &Vec<u8>, i: &mut usize) -> (r: Option<SuccessfulOutcome>)
    requires
        *old(i) <= buf@.len(),
    ensures
        *old(i) <= *final(i),
        *final(i) <= buf@.len(),
        (match dec_successful(buf@.skip(*old(i) as int)) {
            Some(p) => r matches Some(x) && x.deep_view() == p.0 && *final(i) == *old(i) + p.1,
            None => r is None,
        }),
{
    let ghost i0 = *old(i) as int;
    if buf.len() - *i < 1 {
        return None;
    }
    let code = buf[*i];
    *i = *i + 1;
    proof {
        lemma_skip_of_skip(buf@, i0, 1);
    }
    let c = match dec_crit_at(buf, i) {
        None => {
            return None;
        },
        Some(x) => x,
    };
    proof {
        lemma_skip_of_skip(buf@, i0, 2);
    }
    let vb = match dec_bytes_at(buf, i) {
        None => {
            return None;
        },
        Some(x) => x,
    };
    let v = match dec_succ_value_exec(code, vb) {
        None => {
            return None;
        },
        Some(x) => x,
    };
    Some(SuccessfulOutcome { procedure_code: code, criticality: c, value: v })
}

/// Reads an unsuccessful outcome at the index.
fn dec_unsuccessful_at(buf: &Vec<u8>, i: &mut usize) -> (r: Option<UnsuccessfulOutcome>)
    requires
        *old(i) <= buf@.len(),
    ensures
        *old(i) <= *final(i),
        *final(i) <= buf@.len(),
        (match dec_unsuccessful(buf@.skip(*old(i) as int)) {
            Some(p) => r matches Some(x) && x.deep_view() == p.0 && *final(i) == *old(i) + p.1,
            None => r is None,
        }),
{
    let ghost i0 = *old(i) as int;
    if buf.len() - *i < 1 {
        return None;
    }
    let code = buf[*i];
    *i = *i + 1;
    proof {
        lemma_skip_of_skip(buf@, i0, 1);
    }
    let c = match dec_crit_at(buf, i) {
        None => {
            return None;
        },
        Some(x) => x,
    };
    proof {
        lemma_skip_of_skip(buf@, i0, 2);
    }
    let vb = match dec_bytes_at(buf, i) {
        None => {
            return None;
        },
        Some(x) => x,
    };
    Some(UnsuccessfulOutcome { procedure_code: code, criticality: c, value: vb })
}

/// Decodes a whole buffer as one protocol data unit. Anything but exactly
/// one well-formed encoding is refused; a refusal never panics, whatever
/// the bytes.
pub fn decode_pdu(buf: &Vec<u8>) -> (r: Option<NgapPdu>)
    ensures
        (match spec_decode_pdu(buf@) {
            Some(p) => r matches Some(q) && q.deep_view() == p,
            None => r is None,
        }),
{
    proof {
        assert(buf@.skip(0) =~= buf@);
    }
    if buf.len() < 1 {
        return None;
    }
    let tag = buf[0];
    let mut i: usize = 1;
    let pdu = if tag == 0 {
        match dec_initiating_at(buf, &mut i) {
            None => {
                return None;
            },
            Some(m) => NgapPdu::InitiatingMessage(m),
        }
    } else if tag == 1 {
        match dec_successful_at(buf, &mut i) {
            None => {
                return None;
            },
            Some(m) => NgapPdu::SuccessfulOutcome(m),
        }
    } else if tag == 2 {
        match dec_unsuccessful_at(buf, &mut i) {
            None => {
                return None;
            },
            Some(m) => NgapPdu::UnsuccessfulOutcome(m),
        }
    } else {
        return None;
    };
    if i == buf.len() {
        Some(pdu)
    } else {
        None
    }
}

} // verus!
