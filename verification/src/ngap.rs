//! The NGAP protocol-data-unit model: a closed variant over initiating
//! messages and outcomes, each carrying a procedure code, a criticality
//! marker and a procedure-specific value made of tagged, criticality-
//! annotated information elements. Every field the logic reads is a plain
//! value; each type has a mathematical view over sequences.

use vstd::prelude::*;

verus! {

// Procedure codes of the supported NGAP procedures.
pub const ID_NG_SETUP: u8 = 21;

pub const ID_INITIAL_UE_MESSAGE: u8 = 15;

pub const ID_UPLINK_NAS_TRANSPORT: u8 = 46;

// Protocol-IE identifiers of the information elements the handlers read.
pub const ID_GLOBAL_RAN_NODE_ID: u16 = 27;

pub const ID_SUPPORTED_TA_LIST: u16 = 102;

pub const ID_DEFAULT_PAGING_DRX: u16 = 21;

pub const ID_RAN_UE_NGAP_ID: u16 = 85;

pub const ID_NAS_PDU: u16 = 38;

pub const ID_USER_LOCATION_INFORMATION: u16 = 121;

// Protocol-IE identifiers of the information elements the setup response carries.
pub const ID_AMF_NAME: u16 = 1;

pub const ID_SERVED_GUAMI_LIST: u16 = 96;

pub const ID_RELATIVE_AMF_CAPACITY: u16 = 86;

pub const ID_PLMN_SUPPORT_LIST: u16 = 80;

/// Criticality marker of a message or information element: how the peer must
/// react when it cannot comprehend it. Reject means it must abort the
/// procedure.
#[derive(Clone, Copy, Debug, PartialEq, Eq, Structural)]
pub enum Criticality {
    Reject,
    Ignore,
    Notify,
}

/// A PLMN identity: the three-byte half-octet-swapped BCD coding of the
/// mobile country and network codes.
#[derive(Debug, PartialEq, Eq)]
pub struct PlmnIdentity(pub Vec<u8>);

impl DeepView for PlmnIdentity {
    type V = Seq<u8>;

    open spec fn deep_view(&self) -> Seq<u8> {
        self.0@
    }
}

/// The identity of the RAN node, a choice over the radio-access kinds. Only
/// the gNB kind is supported by the handlers; each kind's body is carried as
/// its raw value bytes.
#[derive(Debug, PartialEq, Eq)]
pub enum GlobalRanNodeId {
    GlobalGnbId(Vec<u8>),
    GlobalNgEnbId(Vec<u8>),
    GlobalN3IwfId(Vec<u8>),
}

#[verifier::ext_equal]
pub enum GlobalRanNodeIdView {
    GlobalGnbId(Seq<u8>),
    GlobalNgEnbId(Seq<u8>),
    GlobalN3IwfId(Seq<u8>),
}

impl DeepView for GlobalRanNodeId {
    type V = GlobalRanNodeIdView;

    open spec fn deep_view(&self) -> GlobalRanNodeIdView {
        match self {
            GlobalRanNodeId::GlobalGnbId(b) => GlobalRanNodeIdView::GlobalGnbId(b@),
            GlobalRanNodeId::GlobalNgEnbId(b) => GlobalRanNodeIdView::GlobalNgEnbId(b@),
            GlobalRanNodeId::GlobalN3IwfId(b) => GlobalRanNodeIdView::GlobalN3IwfId(b@),
        }
    }
}

/// Where the user equipment is, a choice over the radio-access kinds. Only
/// the NR kind is supported; each kind's body is carried as raw value bytes.
#[derive(Debug, PartialEq, Eq)]
pub enum UserLocationInformation {
    Nr(Vec<u8>),
    Eutra(Vec<u8>),
    N3iwf(Vec<u8>),
}

#[verifier::ext_equal]
pub enum UserLocationInformationView {
    Nr(Seq<u8>),
    Eutra(Seq<u8>),
    N3iwf(Seq<u8>),
}

impl DeepView for UserLocationInformation {
    type V = UserLocationInformationView;

    open spec fn deep_view(&self) -> UserLocationInformationView {
        match self {
            UserLocationInformation::Nr(b) => UserLocationInformationView::Nr(b@),
            UserLocationInformation::Eutra(b) => UserLocationInformationView::Eutra(b@),
            UserLocationInformation::N3iwf(b) => UserLocationInformationView::N3iwf(b@),
        }
    }
}

/// Typed payload of one NGSetupRequest information element. An element whose
/// identifier the table does not recognize keeps its raw value bytes and is
/// ignored, not an error.
#[derive(Debug, PartialEq, Eq)]
pub enum SetupRequestIeValue {
    GlobalRanNodeId(GlobalRanNodeId),
    SupportedTaList(Vec<u8>),
    DefaultPagingDrx(u8),
    Unrecognized(Vec<u8>),
}

#[verifier::ext_equal]
pub enum SetupRequestIeValueView {
    GlobalRanNodeId(GlobalRanNodeIdView),
    SupportedTaList(Seq<u8>),
    DefaultPagingDrx(u8),
    Unrecognized(Seq<u8>),
}

impl DeepView for SetupRequestIeValue {
    type V = SetupRequestIeValueView;

    open spec fn deep_view(&self) -> SetupRequestIeValueView {
        match self {
            SetupRequestIeValue::GlobalRanNodeId(g) => SetupRequestIeValueView::GlobalRanNodeId(
                g.deep_view(),
            ),
            SetupRequestIeValue::SupportedTaList(b) => SetupRequestIeValueView::SupportedTaList(b@),
            SetupRequestIeValue::DefaultPagingDrx(v) => SetupRequestIeValueView::DefaultPagingDrx(
                *v,
            ),
            SetupRequestIeValue::Unrecognized(b) => SetupRequestIeValueView::Unrecognized(b@),
        }
    }
}

/// One information-element entry: tag, criticality marker, typed payload.
#[derive(Debug, PartialEq, Eq)]
pub struct SetupRequestIe {
    pub id: u16,
    pub criticality: Criticality,
    pub value: SetupRequestIeValue,
}

#[verifier::ext_equal]
pub struct SetupRequestIeView {
    pub id: u16,
    pub criticality: Criticality,
    pub value: SetupRequestIeValueView,
}

impl DeepView for SetupRequestIe {
    type V = SetupRequestIeView;

    open spec fn deep_view(&self) -> SetupRequestIeView {
        SetupRequestIeView {
            id: self.id,
            criticality: self.criticality,
            value: self.value.deep_view(),
        }
    }
}

/// An NGSetupRequest: its ordered information-element sequence.
#[derive(Debug, PartialEq, Eq)]
pub struct NgSetupRequest {
    pub protocol_ies: Vec<SetupRequestIe>,
}

#[verifier::ext_equal]
pub struct NgSetupRequestView {
    pub protocol_ies: Seq<SetupRequestIeView>,
}

impl DeepView for NgSetupRequest {
    type V = NgSetupRequestView;

    open spec fn deep_view(&self) -> NgSetupRequestView {
        NgSetupRequestView { protocol_ies: self.protocol_ies.deep_view() }
    }
}

/// Typed payload of one InitialUEMessage information element.
#[derive(Debug, PartialEq, Eq)]
pub enum InitialUeIeValue {
    RanUeNgapId(u32),
    NasPdu(Vec<u8>),
    UserLocationInformation(UserLocationInformation),
    Unrecognized(Vec<u8>),
}

#[verifier::ext_equal]
pub enum InitialUeIeValueView {
    RanUeNgapId(u32),
    NasPdu(Seq<u8>),
    UserLocationInformation(UserLocationInformationView),
    Unrecognized(Seq<u8>),
}

impl DeepView for InitialUeIeValue {
    type V = InitialUeIeValueView;

    open spec fn deep_view(&self) -> InitialUeIeValueView {
        match self {
            InitialUeIeValue::RanUeNgapId(v) => InitialUeIeValueView::RanUeNgapId(*v),
            InitialUeIeValue::NasPdu(b) => InitialUeIeValueView::NasPdu(b@),
            InitialUeIeValue::UserLocationInformation(u) => {
                InitialUeIeValueView::UserLocationInformation(u.deep_view())
            },
            InitialUeIeValue::Unrecognized(b) => InitialUeIeValueView::Unrecognized(b@),
        }
    }
}

/// One information-element entry of an InitialUEMessage.
#[derive(Debug, PartialEq, Eq)]
pub struct InitialUeIe {
    pub id: u16,
    pub criticality: Criticality,
    pub value: InitialUeIeValue,
}

#[verifier::ext_equal]
pub struct InitialUeIeView {
    pub id: u16,
    pub criticality: Criticality,
    pub value: InitialUeIeValueView,
}

impl DeepView for InitialUeIe {
    type V = InitialUeIeView;

    open spec fn deep_view(&self) -> InitialUeIeView {
        InitialUeIeView {
            id: self.id,
            criticality: self.criticality,
            value: self.value.deep_view(),
        }
    }
}

/// An InitialUEMessage: its ordered information-element sequence.
#[derive(Debug, PartialEq, Eq)]
pub struct InitialUeMessage {
    pub protocol_ies: Vec<InitialUeIe>,
}

#[verifier::ext_equal]
pub struct InitialUeMessageView {
    pub protocol_ies: Seq<InitialUeIeView>,
}

impl DeepView for InitialUeMessage {
    type V = InitialUeMessageView;

    open spec fn deep_view(&self) -> InitialUeMessageView {
        InitialUeMessageView { protocol_ies: self.protocol_ies.deep_view() }
    }
}

/// An UplinkNASTransport. Its handler is a no-op placeholder in this
/// version, so the element sequence is carried opaquely as raw bytes.
#[derive(Debug, PartialEq, Eq)]
pub struct UplinkNasTransport {
    pub protocol_ies: Vec<u8>,
}

#[verifier::ext_equal]
pub struct UplinkNasTransportView {
    pub protocol_ies: Seq<u8>,
}

impl DeepView for UplinkNasTransport {
    type V = UplinkNasTransportView;

    open spec fn deep_view(&self) -> UplinkNasTransportView {
        UplinkNasTransportView { protocol_ies: self.protocol_ies@ }
    }
}

/// The procedure-specific value of an initiating message. An unsupported
/// procedure keeps its raw value bytes: it is logged and dropped, never
/// fatal.
#[derive(Debug, PartialEq, Eq)]
pub enum InitiatingMessageValue {
    NgSetup(NgSetupRequest),
    InitialUeMessage(InitialUeMessage),
    UplinkNasTransport(UplinkNasTransport),
    Unsupported(Vec<u8>),
}

#[verifier::ext_equal]
pub enum InitiatingMessageValueView {
    NgSetup(NgSetupRequestView),
    InitialUeMessage(InitialUeMessageView),
    UplinkNasTransport(UplinkNasTransportView),
    Unsupported(Seq<u8>),
}

impl DeepView for InitiatingMessageValue {
    type V = InitiatingMessageValueView;

    open spec fn deep_view(&self) -> InitiatingMessageValueView {
        match self {
            InitiatingMessageValue::NgSetup(m) => InitiatingMessageValueView::NgSetup(
                m.deep_view(),
            ),
            InitiatingMessageValue::InitialUeMessage(m) => {
                InitiatingMessageValueView::InitialUeMessage(m.deep_view())
            },
            InitiatingMessageValue::UplinkNasTransport(m) => {
                InitiatingMessageValueView::UplinkNasTransport(m.deep_view())
            },
            InitiatingMessageValue::Unsupported(b) => InitiatingMessageValueView::Unsupported(b@),
        }
    }
}

/// A request sent by the peer to open a procedure.
#[derive(Debug, PartialEq, Eq)]
pub struct InitiatingMessage {
    pub procedure_code: u8,
    pub criticality: Criticality,
    pub value: InitiatingMessageValue,
}

#[verifier::ext_equal]
pub struct InitiatingMessageView {
    pub procedure_code: u8,
    pub criticality: Criticality,
    pub value: InitiatingMessageValueView,
}

impl DeepView for InitiatingMessage {
    type V = InitiatingMessageView;

    open spec fn deep_view(&self) -> InitiatingMessageView {
        InitiatingMessageView {
            procedure_code: self.procedure_code,
            criticality: self.criticality,
            value: self.value.deep_view(),
        }
    }
}

/// A globally unique AMF identifier: PLMN identity plus the region, set and
/// pointer bit fields (8, 10 and 6 bits wide).
#[derive(Debug, PartialEq, Eq)]
pub struct Guami {
    pub plmn_identity: PlmnIdentity,
    pub amf_region_id: u8,
    pub amf_set_id: u16,
    pub amf_pointer: u8,
}

#[verifier::ext_equal]
pub struct GuamiView {
    pub plmn_identity: Seq<u8>,
    pub amf_region_id: u8,
    pub amf_set_id: u16,
    pub amf_pointer: u8,
}

impl DeepView for Guami {
    type V = GuamiView;

    open spec fn deep_view(&self) -> GuamiView {
        GuamiView {
            plmn_identity: self.plmn_identity.deep_view(),
            amf_region_id: self.amf_region_id,
            amf_set_id: self.amf_set_id,
            amf_pointer: self.amf_pointer,
        }
    }
}

/// One served-GUAMI entry. No backup AMF name is served in this version.
#[derive(Debug, PartialEq, Eq)]
pub struct ServedGuamiItem {
    pub guami: Guami,
}

#[verifier::ext_equal]
pub struct ServedGuamiItemView {
    pub guami: GuamiView,
}

impl DeepView for ServedGuamiItem {
    type V = ServedGuamiItemView;

    open spec fn deep_view(&self) -> ServedGuamiItemView {
        ServedGuamiItemView { guami: self.guami.deep_view() }
    }
}

/// A single network-slice selection: the slice/service type octets. The
/// slice differentiator is omitted in this version.
#[derive(Debug, PartialEq, Eq)]
pub struct Snssai {
    pub sst: Vec<u8>,
}

#[verifier::ext_equal]
pub struct SnssaiView {
    pub sst: Seq<u8>,
}

impl DeepView for Snssai {
    type V = SnssaiView;

    open spec fn deep_view(&self) -> SnssaiView {
        SnssaiView { sst: self.sst@ }
    }
}

/// One supported-PLMN entry of the setup response: the PLMN identity and the
/// slices supported for it.
#[derive(Debug, PartialEq, Eq)]
pub struct PlmnSupportItem {
    pub plmn_identity: PlmnIdentity,
    pub slice_support_list: Vec<Snssai>,
}

#[verifier::ext_equal]
pub struct PlmnSupportItemView {
    pub plmn_identity: Seq<u8>,
    pub slice_support_list: Seq<SnssaiView>,
}

impl DeepView for PlmnSupportItem {
    type V = PlmnSupportItemView;

    open spec fn deep_view(&self) -> PlmnSupportItemView {
        PlmnSupportItemView {
            plmn_identity: self.plmn_identity.deep_view(),
            slice_support_list: self.slice_support_list.deep_view(),
        }
    }
}

/// Typed payload of one NGSetupResponse information element.
#[derive(Debug, PartialEq, Eq)]
pub enum SetupResponseIeValue {
    AmfName(Vec<u8>),
    ServedGuamiList(Vec<ServedGuamiItem>),
    RelativeAmfCapacity(u8),
    PlmnSupportList(Vec<PlmnSupportItem>),
    Unrecognized(Vec<u8>),
}

#[verifier::ext_equal]
pub enum SetupResponseIeValueView {
    AmfName(Seq<u8>),
    ServedGuamiList(Seq<ServedGuamiItemView>),
    RelativeAmfCapacity(u8),
    PlmnSupportList(Seq<PlmnSupportItemView>),
    Unrecognized(Seq<u8>),
}

impl DeepView for SetupResponseIeValue {
    type V = SetupResponseIeValueView;

    open spec fn deep_view(&self) -> SetupResponseIeValueView {
        match self {
            SetupResponseIeValue::AmfName(b) => SetupResponseIeValueView::AmfName(b@),
            SetupResponseIeValue::ServedGuamiList(l) => SetupResponseIeValueView::ServedGuamiList(
                l.deep_view(),
            ),
            SetupResponseIeValue::RelativeAmfCapacity(v) => {
                SetupResponseIeValueView::RelativeAmfCapacity(*v)
            },
            SetupResponseIeValue::PlmnSupportList(l) => SetupResponseIeValueView::PlmnSupportList(
                l.deep_view(),
            ),
            SetupResponseIeValue::Unrecognized(b) => SetupResponseIeValueView::Unrecognized(b@),
        }
    }
}

/// One information-element entry of an NGSetupResponse.
#[derive(Debug, PartialEq, Eq)]
pub struct SetupResponseIe {
    pub id: u16,
    pub criticality: Criticality,
    pub value: SetupResponseIeValue,
}

#[verifier::ext_equal]
pub struct SetupResponseIeView {
    pub id: u16,
    pub criticality: Criticality,
    pub value: SetupResponseIeValueView,
}

impl DeepView for SetupResponseIe {
    type V = SetupResponseIeView;

    open spec fn deep_view(&self) -> SetupResponseIeView {
        SetupResponseIeView {
            id: self.id,
            criticality: self.criticality,
            value: self.value.deep_view(),
        }
    }
}

/// An NGSetupResponse: its ordered information-element sequence.
#[derive(Debug, PartialEq, Eq)]
pub struct NgSetupResponse {
    pub protocol_ies: Vec<SetupResponseIe>,
}

#[verifier::ext_equal]
pub struct NgSetupResponseView {
    pub protocol_ies: Seq<SetupResponseIeView>,
}

impl DeepView for NgSetupResponse {
    type V = NgSetupResponseView;

    open spec fn deep_view(&self) -> NgSetupResponseView {
        NgSetupResponseView { protocol_ies: self.protocol_ies.deep_view() }
    }
}

/// The procedure-specific value of a successful outcome.
#[derive(Debug, PartialEq, Eq)]
pub enum SuccessfulOutcomeValue {
    NgSetup(NgSetupResponse),
    Unsupported(Vec<u8>),
}

#[verifier::ext_equal]
pub enum SuccessfulOutcomeValueView {
    NgSetup(NgSetupResponseView),
    Unsupported(Seq<u8>),
}

impl DeepView for SuccessfulOutcomeValue {
    type V = SuccessfulOutcomeValueView;

    open spec fn deep_view(&self) -> SuccessfulOutcomeValueView {
        match self {
            SuccessfulOutcomeValue::NgSetup(m) => SuccessfulOutcomeValueView::NgSetup(
                m.deep_view(),
            ),
            SuccessfulOutcomeValue::Unsupported(b) => SuccessfulOutcomeValueView::Unsupported(b@),
        }
    }
}

/// A reply reporting that a procedure succeeded.
#[derive(Debug, PartialEq, Eq)]
pub struct SuccessfulOutcome {
    pub procedure_code: u8,
    pub criticality: Criticality,
    pub value: SuccessfulOutcomeValue,
}

#[verifier::ext_equal]
pub struct SuccessfulOutcomeView {
    pub procedure_code: u8,
    pub criticality: Criticality,
    pub value: SuccessfulOutcomeValueView,
}

impl DeepView for SuccessfulOutcome {
    type V = SuccessfulOutcomeView;

    open spec fn deep_view(&self) -> SuccessfulOutcomeView {
        SuccessfulOutcomeView {
            procedure_code: self.procedure_code,
            criticality: self.criticality,
            value: self.value.deep_view(),
        }
    }
}

/// A reply reporting that a procedure failed. This node never opens a
/// procedure itself, so the value is carried opaquely.
#[derive(Debug, PartialEq, Eq)]
pub struct UnsuccessfulOutcome {
    pub procedure_code: u8,
    pub criticality: Criticality,
    pub value: Vec<u8>,
}

#[verifier::ext_equal]
pub struct UnsuccessfulOutcomeView {
    pub procedure_code: u8,
    pub criticality: Criticality,
    pub value: Seq<u8>,
}

impl DeepView for UnsuccessfulOutcome {
    type V = UnsuccessfulOutcomeView;

    open spec fn deep_view(&self) -> UnsuccessfulOutcomeView {
        UnsuccessfulOutcomeView {
            procedure_code: self.procedure_code,
            criticality: self.criticality,
            value: self.value@,
        }
    }
}

/// A protocol data unit, the closed variant over the three outer message
/// kinds. A decoded PDU always has exactly one procedure value populated,
/// enforced by the variant itself.
#[derive(Debug, PartialEq, Eq)]
pub enum NgapPdu {
    InitiatingMessage(InitiatingMessage),
    SuccessfulOutcome(SuccessfulOutcome),
    UnsuccessfulOutcome(UnsuccessfulOutcome),
}

#[verifier::ext_equal]
pub enum NgapPduView {
    InitiatingMessage(InitiatingMessageView),
    SuccessfulOutcome(SuccessfulOutcomeView),
    UnsuccessfulOutcome(UnsuccessfulOutcomeView),
}

impl DeepView for NgapPdu {
    type V = NgapPduView;

    open spec fn deep_view(&self) -> NgapPduView {
        match self {
            NgapPdu::InitiatingMessage(m) => NgapPduView::InitiatingMessage(m.deep_view()),
            NgapPdu::SuccessfulOutcome(m) => NgapPduView::SuccessfulOutcome(m.deep_view()),
            NgapPdu::UnsuccessfulOutcome(m) => NgapPduView::UnsuccessfulOutcome(m.deep_view()),
        }
    }
}

} // verus!
