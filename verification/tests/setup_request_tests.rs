//! Tests of the PLMN encoder and the NGSetup procedure handler.

use corekube::config::CoreKubeConfig;
use corekube::ngap::{
    Criticality, GlobalRanNodeId, NgSetupRequest, NgapPdu, SetupRequestIe, SetupRequestIeValue,
    SetupResponseIeValue, SuccessfulOutcomeValue, ID_DEFAULT_PAGING_DRX, ID_GLOBAL_RAN_NODE_ID,
    ID_NG_SETUP, ID_SUPPORTED_TA_LIST,
};
use corekube::ngap_handlers::setup_request::{build_plmn_identity, handle_setup_request};

fn gnb_ie() -> SetupRequestIe {
    SetupRequestIe {
        id: ID_GLOBAL_RAN_NODE_ID,
        criticality: Criticality::Reject,
        value: SetupRequestIeValue::GlobalRanNodeId(GlobalRanNodeId::GlobalGnbId(vec![
            0x02, 0xF8, 0x39, 0x01,
        ])),
    }
}

fn ng_enb_ie() -> SetupRequestIe {
    SetupRequestIe {
        id: ID_GLOBAL_RAN_NODE_ID,
        criticality: Criticality::Reject,
        value: SetupRequestIeValue::GlobalRanNodeId(GlobalRanNodeId::GlobalNgEnbId(vec![
            0x02, 0xF8, 0x39, 0x02,
        ])),
    }
}

fn ta_list_ie() -> SetupRequestIe {
    SetupRequestIe {
        id: ID_SUPPORTED_TA_LIST,
        criticality: Criticality::Reject,
        value: SetupRequestIeValue::SupportedTaList(vec![0x00, 0x00, 0x01]),
    }
}

fn paging_drx_ie() -> SetupRequestIe {
    SetupRequestIe {
        id: ID_DEFAULT_PAGING_DRX,
        criticality: Criticality::Ignore,
        value: SetupRequestIeValue::DefaultPagingDrx(2),
    }
}

#[test]
fn it_works() {
    let result: i32 = 2 + 2;
    assert_eq!(result, 4);
}

#[test]
fn test_plmn_identity() {
    let plmn_identity = build_plmn_identity(208, 93).0;
    let plmn_identity_expected_bytes: [u8; 3] = [0x02, 0xf8, 0x39];
    assert_eq!(plmn_identity, plmn_identity_expected_bytes.to_vec());
}

#[test]
fn plmn_identity_three_digit_mnc() {
    // mcc 310 packs as digits 3,1,0 and mnc 410 as 4,1,0 with no filler
    let plmn_identity = build_plmn_identity(310, 410).0;
    assert_eq!(plmn_identity, vec![0x13, 0x40, 0x01]);
}

#[test]
fn plmn_identity_always_three_bytes() {
    let samples: [(u16, u16); 5] = [(0, 0), (999, 999), (1, 10), (208, 93), (460, 0)];
    for (mcc, mnc) in samples {
        assert_eq!(build_plmn_identity(mcc, mnc).0.len(), 3);
    }
}

#[test]
fn setup_with_all_mandatory_ies_is_answered() {
    let config = CoreKubeConfig::default();
    let request = NgSetupRequest { protocol_ies: vec![gnb_ie(), ta_list_ie(), paging_drx_ie()] };
    let responses = handle_setup_request(&config, request);
    assert_eq!(responses.len(), 1);
    assert_eq!(responses[0].sctp_stream, 0);
    match &responses[0].ngap_pdu {
        NgapPdu::SuccessfulOutcome(outcome) => {
            assert_eq!(outcome.procedure_code, ID_NG_SETUP);
            match &outcome.value {
                SuccessfulOutcomeValue::NgSetup(resp) => {
                    assert_eq!(resp.protocol_ies.len(), 4);
                    match &resp.protocol_ies[0].value {
                        SetupResponseIeValue::AmfName(name) => {
                            assert_eq!(name, &b"CoreKubeRS_5G_Worker".to_vec());
                        },
                        other => panic!("first element is not the AMF name: {:?}", other),
                    }
                },
                other => panic!("not an NGSetup value: {:?}", other),
            }
        },
        other => panic!("not a SuccessfulOutcome: {:?}", other),
    }
}

#[test]
fn setup_missing_ta_list_is_dropped() {
    let config = CoreKubeConfig::default();
    let request = NgSetupRequest { protocol_ies: vec![gnb_ie(), paging_drx_ie()] };
    let responses = handle_setup_request(&config, request);
    assert_eq!(responses.len(), 0);
}

#[test]
fn setup_missing_ran_node_id_is_dropped() {
    let config = CoreKubeConfig::default();
    let request = NgSetupRequest { protocol_ies: vec![ta_list_ie(), paging_drx_ie()] };
    let responses = handle_setup_request(&config, request);
    assert_eq!(responses.len(), 0);
}

#[test]
fn setup_missing_paging_drx_is_dropped() {
    let config = CoreKubeConfig::default();
    let request = NgSetupRequest { protocol_ies: vec![gnb_ie(), ta_list_ie()] };
    let responses = handle_setup_request(&config, request);
    assert_eq!(responses.len(), 0);
}

#[test]
fn setup_from_non_gnb_is_dropped() {
    let config = CoreKubeConfig::default();
    let request = NgSetupRequest { protocol_ies: vec![ng_enb_ie(), ta_list_ie(), paging_drx_ie()] };
    let responses = handle_setup_request(&config, request);
    assert_eq!(responses.len(), 0);
}

#[test]
fn setup_duplicate_tag_last_wins() {
    let config = CoreKubeConfig::default();
    // the later non-gNB entry wins over the earlier gNB one, so the request drops
    let request = NgSetupRequest {
        protocol_ies: vec![gnb_ie(), ta_list_ie(), paging_drx_ie(), ng_enb_ie()],
    };
    assert_eq!(handle_setup_request(&config, request).len(), 0);
    // and the other way round, the later gNB entry wins
    let request = NgSetupRequest {
        protocol_ies: vec![ng_enb_ie(), ta_list_ie(), paging_drx_ie(), gnb_ie()],
    };
    assert_eq!(handle_setup_request(&config, request).len(), 1);
}

#[test]
fn setup_ignores_unrecognized_tags() {
    let config = CoreKubeConfig::default();
    let stray = SetupRequestIe {
        id: 9999,
        criticality: Criticality::Ignore,
        value: SetupRequestIeValue::Unrecognized(vec![0xAA, 0xBB]),
    };
    let request = NgSetupRequest {
        protocol_ies: vec![stray, gnb_ie(), ta_list_ie(), paging_drx_ie()],
    };
    assert_eq!(handle_setup_request(&config, request).len(), 1);
}
