//! The InitialUEMessage handler: validates the mandatory information
//! elements, accepts only the NR kind of user location, and hands the NAS
//! payload to the envelope parser. Building NAS-level answers is out of
//! scope in this version, so the handler itself produces no responses.

use vstd::prelude::*;

use crate::config::CoreKubeConfig;
use crate::nas;
use crate::ngap::{
    InitialUeIe, InitialUeIeValue, InitialUeIeValueView, InitialUeIeView, InitialUeMessage,
    UserLocationInformation, UserLocationInformationView,
};
use crate::ngap_handlers::response::NGAPResponse;

verus! {

/// The last RAN-UE-NGAP-ID entry of the message.
pub open spec fn spec_last_ran_ue_ngap_id(ies: Seq<InitialUeIeView>) -> Option<u32>
    decreases ies.len(),
{
    if ies.len() == 0 {
        None
    } else {
        match ies.last().value {
            InitialUeIeValueView::RanUeNgapId(v) => Some(v),
            _ => spec_last_ran_ue_ngap_id(ies.drop_last()),
        }
    }
}

/// The last NAS-PDU entry of the message.
pub open spec fn spec_last_nas_pdu(ies: Seq<InitialUeIeView>) -> Option<Seq<u8>>
    decreases ies.len(),
{
    if ies.len() == 0 {
        None
    } else {
        match ies.last().value {
            InitialUeIeValueView::NasPdu(b) => Some(b),
            _ => spec_last_nas_pdu(ies.drop_last()),
        }
    }
}

/// The last user-location entry of the message.
pub open spec fn spec_last_user_location(ies: Seq<InitialUeIeView>) -> Option<
    UserLocationInformationView,
>
    decreases ies.len(),
{
    if ies.len() == 0 {
        None
    } else {
        match ies.last().value {
            InitialUeIeValueView::UserLocationInformation(u) => Some(u),
            _ => spec_last_user_location(ies.drop_last()),
        }
    }
}

/// Scans the ordered information elements of an InitialUEMessage and
/// extracts the recognized tags into their slots, the last entry winning per
/// tag. Entries with unrecognized tags are ignored, not an error.
pub fn extract_initial_ue_ies(ies: Vec<InitialUeIe>) -> (r: (
    Option<u32>,
    Option<Vec<u8>>,
    Option<UserLocationInformation>,
))
    ensures
        r.0 == spec_last_ran_ue_ngap_id(ies.deep_view()),
        (match r.1 {
            Some(b) => spec_last_nas_pdu(ies.deep_view()) == Some(b@),
            None => spec_last_nas_pdu(ies.deep_view()) is None,
        }),
        r.2.deep_view() == spec_last_user_location(ies.deep_view()),
{
    let ghost orig: Seq<InitialUeIeView> = ies.deep_view();
    let mut rest = ies;
    let mut ran_ue_ngap_id: Option<u32> = None;
    let mut nas_pdu: Option<Vec<u8>> = None;
    let mut user_location: Option<UserLocationInformation> = None;
    while rest.len() > 0
        invariant
            spec_last_ran_ue_ngap_id(orig) == (match ran_ue_ngap_id {
                Some(v) => Some(v),
                None => spec_last_ran_ue_ngap_id(rest.deep_view()),
            }),
            spec_last_nas_pdu(orig) == (match nas_pdu {
                Some(b) => Some(b@),
                None => spec_last_nas_pdu(rest.deep_view()),
            }),
            spec_last_user_location(orig) == (match user_location {
                Some(u) => Some(u.deep_view()),
                None => spec_last_user_location(rest.deep_view()),
            }),
        decreases rest.len(),
    {
        let ghost prev = rest.deep_view();
        let ie = rest.pop().unwrap();
        proof {
            assert(prev =~= rest.deep_view().push(ie.deep_view()));
            assert(prev.drop_last() =~= rest.deep_view());
            assert(prev.last() == ie.deep_view());
        }
        match ie.value {
            InitialUeIeValue::RanUeNgapId(v) => {
                if ran_ue_ngap_id.is_none() {
                    ran_ue_ngap_id = Some(v);
                }
            },
            InitialUeIeValue::NasPdu(b) => {
                if nas_pdu.is_none() {
                    nas_pdu = Some(b);
                }
            },
            InitialUeIeValue::UserLocationInformation(u) => {
                if user_location.is_none() {
                    user_location = Some(u);
                }
            },
            InitialUeIeValue::Unrecognized(_) => {},
        }
    }
    proof {
        assert(rest.deep_view() =~= Seq::<InitialUeIeView>::empty());
    }
    (ran_ue_ngap_id, nas_pdu, user_location)
}

/// Handles an InitialUEMessage: checks that RAN-UE-NGAP-ID, NAS-PDU and
/// user location are present and that the location is the NR kind, then
/// hands the NAS payload to the envelope parser, inner decoding requested.
/// No response is produced in this version, whatever the outcome: the
/// NAS-procedure answers are out of scope.
pub fn handle_initial_ue_message(config: &CoreKubeConfig, initial_ue_msg: InitialUeMessage) -> (r:
    Vec<NGAPResponse>)
    ensures
        r.deep_view() == Seq::<
            crate::ngap_handlers::response::NGAPResponseView,
        >::empty(),
{
    let (ran_ue_ngap_id, nas_pdu, user_location) = extract_initial_ue_ies(
        initial_ue_msg.protocol_ies,
    );

    let empty = Vec::<NGAPResponse>::new();
    proof {
        assert(empty.deep_view() =~= Seq::<
            crate::ngap_handlers::response::NGAPResponseView,
        >::empty());
    }

    if ran_ue_ngap_id.is_none() {
        // missing RAN-UE-NGAP-ID: drop the message
        return empty;
    }
    let nas_bytes = match nas_pdu {
        None => {
            // missing NAS-PDU: drop the message
            return empty;
        },
        Some(b) => b,
    };
    match user_location {
        Some(UserLocationInformation::Nr(_)) => {},
        _ => {
            // only the NR kind of user location is supported
            return empty;
        },
    }

    // Hand the NAS payload to the envelope parser; what it classifies would
    // drive the NAS procedures, which are not implemented in this version.
    let _ = nas::parse(nas_bytes, true, false, false);

    empty
}

} // verus!
