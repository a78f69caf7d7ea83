//! Tests of the wire codec: round trips through encode and decode, and
//! rejection of malformed buffers.

use corekube::codec::{decode_pdu, encode_pdu};
use corekube::config::CoreKubeConfig;
use corekube::ngap::{
    Criticality, GlobalRanNodeId, InitialUeIe, InitialUeIeValue, InitialUeMessage,
    InitiatingMessage, InitiatingMessageValue, NgSetupRequest, NgapPdu, SetupRequestIe,
    SetupRequestIeValue, UnsuccessfulOutcome, UplinkNasTransport, UserLocationInformation,
    ID_GLOBAL_RAN_NODE_ID, ID_INITIAL_UE_MESSAGE, ID_NAS_PDU, ID_NG_SETUP, ID_RAN_UE_NGAP_ID,
    ID_UPLINK_NAS_TRANSPORT,
};
use corekube::ngap_handlers::setup_request::{build_setup_response, handle_setup_request};

fn setup_request_pdu() -> NgapPdu {
    NgapPdu::InitiatingMessage(InitiatingMessage {
        procedure_code: ID_NG_SETUP,
        criticality: Criticality::Reject,
        value: InitiatingMessageValue::NgSetup(NgSetupRequest {
            protocol_ies: vec![
                SetupRequestIe {
                    id: ID_GLOBAL_RAN_NODE_ID,
                    criticality: Criticality::Reject,
                    value: SetupRequestIeValue::GlobalRanNodeId(GlobalRanNodeId::GlobalGnbId(
                        vec![0x02, 0xF8, 0x39, 0x01],
                    )),
                },
                SetupRequestIe {
                    id: 102,
                    criticality: Criticality::Reject,
                    value: SetupRequestIeValue::SupportedTaList(vec![0x00, 0x00, 0x01]),
                },
                SetupRequestIe {
                    id: 21,
                    criticality: Criticality::Ignore,
                    value: SetupRequestIeValue::DefaultPagingDrx(2),
                },
            ],
        }),
    })
}

#[test]
fn setup_response_round_trips() {
    let config = CoreKubeConfig::default();
    let pdu = build_setup_response(&config);
    let encoded = encode_pdu(&pdu);
    let decoded = decode_pdu(&encoded).expect("the encoding must decode");
    assert_eq!(decoded, pdu);
}

#[test]
fn handler_produced_pdu_round_trips() {
    let config = CoreKubeConfig::default();
    let request = match setup_request_pdu() {
        NgapPdu::InitiatingMessage(m) => match m.value {
            InitiatingMessageValue::NgSetup(r) => r,
            other => panic!("not a setup request: {:?}", other),
        },
        other => panic!("not an initiating message: {:?}", other),
    };
    let responses = handle_setup_request(&config, request);
    assert_eq!(responses.len(), 1);
    let encoded = encode_pdu(&responses[0].ngap_pdu);
    let decoded = decode_pdu(&encoded).expect("the encoding must decode");
    assert_eq!(decoded, responses[0].ngap_pdu);
}

#[test]
fn setup_request_round_trips() {
    let pdu = setup_request_pdu();
    let encoded = encode_pdu(&pdu);
    assert_eq!(decode_pdu(&encoded), Some(setup_request_pdu()));
}

#[test]
fn initial_ue_message_round_trips() {
    let pdu = NgapPdu::InitiatingMessage(InitiatingMessage {
        procedure_code: ID_INITIAL_UE_MESSAGE,
        criticality: Criticality::Ignore,
        value: InitiatingMessageValue::InitialUeMessage(InitialUeMessage {
            protocol_ies: vec![
                InitialUeIe {
                    id: ID_RAN_UE_NGAP_ID,
                    criticality: Criticality::Reject,
                    value: InitialUeIeValue::RanUeNgapId(0xDEADBEEF),
                },
                InitialUeIe {
                    id: ID_NAS_PDU,
                    criticality: Criticality::Reject,
                    value: InitialUeIeValue::NasPdu(vec![0x7E, 0x00, 0x41]),
                },
                InitialUeIe {
                    id: 121,
                    criticality: Criticality::Reject,
                    value: InitialUeIeValue::UserLocationInformation(
                        UserLocationInformation::Nr(vec![0x01, 0x02]),
                    ),
                },
            ],
        }),
    });
    let encoded = encode_pdu(&pdu);
    let decoded = decode_pdu(&encoded).expect("the encoding must decode");
    assert_eq!(decoded, pdu);
}

#[test]
fn uplink_nas_transport_round_trips() {
    let pdu = NgapPdu::InitiatingMessage(InitiatingMessage {
        procedure_code: ID_UPLINK_NAS_TRANSPORT,
        criticality: Criticality::Ignore,
        value: InitiatingMessageValue::UplinkNasTransport(UplinkNasTransport {
            protocol_ies: vec![0x10, 0x20, 0x30],
        }),
    });
    let encoded = encode_pdu(&pdu);
    assert_eq!(decode_pdu(&encoded), Some(pdu));
}

#[test]
fn unsupported_procedure_round_trips() {
    let pdu = NgapPdu::InitiatingMessage(InitiatingMessage {
        procedure_code: 200,
        criticality: Criticality::Notify,
        value: InitiatingMessageValue::Unsupported(vec![0x01, 0x02, 0x03]),
    });
    let encoded = encode_pdu(&pdu);
    assert_eq!(decode_pdu(&encoded), Some(pdu));
}

#[test]
fn unsuccessful_outcome_round_trips() {
    let pdu = NgapPdu::UnsuccessfulOutcome(UnsuccessfulOutcome {
        procedure_code: ID_NG_SETUP,
        criticality: Criticality::Reject,
        value: vec![0x00, 0x01],
    });
    let encoded = encode_pdu(&pdu);
    assert_eq!(decode_pdu(&encoded), Some(pdu));
}

#[test]
fn malformed_buffers_are_refused() {
    assert_eq!(decode_pdu(&vec![]), None);
    assert_eq!(decode_pdu(&vec![3]), None);
    assert_eq!(decode_pdu(&vec![0]), None);
    assert_eq!(decode_pdu(&vec![0, 21]), None);
    assert_eq!(decode_pdu(&vec![0, 21, 0, 0, 9]), None);
}

#[test]
fn trailing_bytes_are_refused() {
    let config = CoreKubeConfig::default();
    let mut encoded = encode_pdu(&build_setup_response(&config));
    encoded.push(0x00);
    assert_eq!(decode_pdu(&encoded), None);
}

#[test]
fn truncated_encoding_is_refused() {
    let config = CoreKubeConfig::default();
    let mut encoded = encode_pdu(&build_setup_response(&config));
    encoded.pop();
    assert_eq!(decode_pdu(&encoded), None);
}
