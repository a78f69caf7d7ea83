//! Tests of the dispatcher: framing, routing, isolation of malformed
//! datagrams, and the remaining handlers.

use corekube::codec::{decode_pdu, encode_pdu};
use corekube::config::CoreKubeConfig;
use corekube::dispatcher::{ngap_handler_entrypoint, process_message};
use corekube::ngap::{
    Criticality, GlobalRanNodeId, InitialUeIe, InitialUeIeValue, InitialUeMessage,
    InitiatingMessage, InitiatingMessageValue, NgSetupRequest, NgapPdu, SetupRequestIe,
    SetupRequestIeValue, UplinkNasTransport, UserLocationInformation, ID_DEFAULT_PAGING_DRX,
    ID_GLOBAL_RAN_NODE_ID, ID_INITIAL_UE_MESSAGE, ID_NAS_PDU, ID_NG_SETUP, ID_RAN_UE_NGAP_ID,
    ID_SUPPORTED_TA_LIST, ID_UPLINK_NAS_TRANSPORT, ID_USER_LOCATION_INFORMATION,
};
use corekube::ngap_handlers::setup_request::build_setup_response;
use corekube::ngap_handlers::{handle_initial_ue_message, handle_uplink_nas_transport};

fn setup_request_bytes() -> Vec<u8> {
    encode_pdu(&NgapPdu::InitiatingMessage(InitiatingMessage {
        procedure_code: ID_NG_SETUP,
        criticality: Criticality::Reject,
        value: InitiatingMessageValue::NgSetup(NgSetupRequest {
            protocol_ies: vec![
                SetupRequestIe {
                    id: ID_GLOBAL_RAN_NODE_ID,
                    criticality: Criticality::Reject,
                    value: SetupRequestIeValue::GlobalRanNodeId(GlobalRanNodeId::GlobalGnbId(
                        vec![0x02, 0xF8, 0x39, 0x01],
                    )),
                },
                SetupRequestIe {
                    id: ID_SUPPORTED_TA_LIST,
                    criticality: Criticality::Reject,
                    value: SetupRequestIeValue::SupportedTaList(vec![0x00, 0x00, 0x01]),
                },
                SetupRequestIe {
                    id: ID_DEFAULT_PAGING_DRX,
                    criticality: Criticality::Ignore,
                    value: SetupRequestIeValue::DefaultPagingDrx(2),
                },
            ],
        }),
    }))
}

#[test]
fn setup_datagram_is_answered_on_stream_zero() {
    let config = CoreKubeConfig::default();
    let mut datagram = vec![9, 8, 7, 6];
    datagram.extend(setup_request_bytes());
    let out = process_message(&config, &datagram);
    assert_eq!(out.len(), 1);
    // frontend identifier, stream tag, then the encoded setup response
    assert_eq!(&out[0][0..4], &[9, 8, 7, 6]);
    assert_eq!(out[0][4], 0);
    let response_bytes: Vec<u8> = out[0][5..].to_vec();
    let response = decode_pdu(&response_bytes).expect("the reply must decode");
    assert_eq!(response, build_setup_response(&config));
}

#[test]
fn short_datagram_produces_nothing() {
    let config = CoreKubeConfig::default();
    assert_eq!(process_message(&config, &vec![]).len(), 0);
    assert_eq!(process_message(&config, &vec![1, 2, 3]).len(), 0);
}

#[test]
fn undecodable_payload_produces_nothing() {
    let config = CoreKubeConfig::default();
    let datagram = vec![1, 2, 3, 4, 0xFF, 0xFF, 0xFF];
    assert_eq!(process_message(&config, &datagram).len(), 0);
}

#[test]
fn malformed_datagrams_do_not_affect_each_other() {
    let config = CoreKubeConfig::default();
    let bad_one = vec![1, 2, 3, 4, 0xFF];
    let bad_two = vec![4, 3, 2, 1, 0x00, 0x00];
    assert_eq!(process_message(&config, &bad_one).len(), 0);
    assert_eq!(process_message(&config, &bad_two).len(), 0);
    // a well-formed datagram is still answered afterwards
    let mut good = vec![0, 0, 0, 1];
    good.extend(setup_request_bytes());
    assert_eq!(process_message(&config, &good).len(), 1);
    // and the same malformed datagram still produces nothing
    assert_eq!(process_message(&config, &bad_one).len(), 0);
}

#[test]
fn outcomes_are_dropped() {
    let config = CoreKubeConfig::default();
    let payload = encode_pdu(&build_setup_response(&config));
    assert_eq!(ngap_handler_entrypoint(&config, &payload).len(), 0);
}

#[test]
fn unsupported_procedure_is_dropped() {
    let config = CoreKubeConfig::default();
    let payload = encode_pdu(&NgapPdu::InitiatingMessage(InitiatingMessage {
        procedure_code: 200,
        criticality: Criticality::Notify,
        value: InitiatingMessageValue::Unsupported(vec![0xAB]),
    }));
    assert_eq!(ngap_handler_entrypoint(&config, &payload).len(), 0);
}

#[test]
fn initial_ue_message_produces_no_response() {
    let config = CoreKubeConfig::default();
    let msg = InitialUeMessage {
        protocol_ies: vec![
            InitialUeIe {
                id: ID_RAN_UE_NGAP_ID,
                criticality: Criticality::Reject,
                value: InitialUeIeValue::RanUeNgapId(1),
            },
            InitialUeIe {
                id: ID_NAS_PDU,
                criticality: Criticality::Reject,
                value: InitialUeIeValue::NasPdu(vec![0x7E, 0x00, 0x41]),
            },
            InitialUeIe {
                id: ID_USER_LOCATION_INFORMATION,
                criticality: Criticality::Reject,
                value: InitialUeIeValue::UserLocationInformation(UserLocationInformation::Nr(
                    vec![0x01],
                )),
            },
        ],
    };
    assert_eq!(handle_initial_ue_message(&config, msg).len(), 0);
}

#[test]
fn initial_ue_message_non_nr_location_is_dropped() {
    let config = CoreKubeConfig::default();
    let msg = InitialUeMessage {
        protocol_ies: vec![
            InitialUeIe {
                id: ID_RAN_UE_NGAP_ID,
                criticality: Criticality::Reject,
                value: InitialUeIeValue::RanUeNgapId(1),
            },
            InitialUeIe {
                id: ID_NAS_PDU,
                criticality: Criticality::Reject,
                value: InitialUeIeValue::NasPdu(vec![0x7E, 0x00, 0x41]),
            },
            InitialUeIe {
                id: ID_USER_LOCATION_INFORMATION,
                criticality: Criticality::Reject,
                value: InitialUeIeValue::UserLocationInformation(
                    UserLocationInformation::Eutra(vec![0x01]),
                ),
            },
        ],
    };
    assert_eq!(handle_initial_ue_message(&config, msg).len(), 0);
}

#[test]
fn uplink_nas_transport_produces_no_response() {
    let config = CoreKubeConfig::default();
    let msg = UplinkNasTransport { protocol_ies: vec![0x01, 0x02] };
    assert_eq!(handle_uplink_nas_transport(&config, msg).len(), 0);
    let payload = encode_pdu(&NgapPdu::InitiatingMessage(InitiatingMessage {
        procedure_code: ID_UPLINK_NAS_TRANSPORT,
        criticality: Criticality::Ignore,
        value: InitiatingMessageValue::UplinkNasTransport(UplinkNasTransport {
            protocol_ies: vec![0x01, 0x02],
        }),
    }));
    assert_eq!(ngap_handler_entrypoint(&config, &payload).len(), 0);
}

#[test]
fn initial_ue_datagram_produces_nothing_but_does_not_fail() {
    let config = CoreKubeConfig::default();
    let payload = encode_pdu(&NgapPdu::InitiatingMessage(InitiatingMessage {
        procedure_code: ID_INITIAL_UE_MESSAGE,
        criticality: Criticality::Ignore,
        value: InitiatingMessageValue::InitialUeMessage(InitialUeMessage {
            protocol_ies: vec![
                InitialUeIe {
                    id: ID_NAS_PDU,
                    criticality: Criticality::Reject,
                    value: InitialUeIeValue::NasPdu(vec![0x7E, 0x00, 0x41]),
                },
            ],
        }),
    }));
    let mut datagram = vec![0, 0, 0, 2];
    datagram.extend(payload);
    assert_eq!(process_message(&config, &datagram).len(), 0);
}

#[test]
fn default_config_is_usable() {
    let config = CoreKubeConfig::default();
    assert_eq!(config.mcc, 208);
    assert_eq!(config.mnc, 93);
    assert_eq!(config.amf_region_id, 2);
    assert_eq!(config.amf_set_id, 1);
    assert_eq!(config.amf_pointer, 0);
    assert_eq!(config.relative_amf_capacity, 255);
    assert_eq!(config.sst, vec![1]);
    assert_eq!(config.amf_name, b"CoreKubeRS_5G_Worker".to_vec());
    assert_eq!(config.bind_port, 9977);
    assert!(config.multithreaded);
}
