//! The UplinkNASTransport handler: accepted and dropped in this version, a
//! reserved extension point for NAS-over-NGAP forwarding.

use vstd::prelude::*;

use crate::config::CoreKubeConfig;
use crate::ngap::UplinkNasTransport;
use crate::ngap_handlers::response::{NGAPResponse, NGAPResponseView};

verus! {

/// Accepts an UplinkNASTransport and produces no responses.
pub fn handle_uplink_nas_transport(
    _config: &CoreKubeConfig,
    _uplink_nas: UplinkNasTransport,
) -> (r: Vec<NGAPResponse>)
    ensures
        r.deep_view() == Seq::<NGAPResponseView>::empty(),
{
    let r = Vec::<NGAPResponse>::new();
    proof {
        assert(r.deep_view() =~= Seq::<NGAPResponseView>::empty());
    }
    r
}

} // verus!
