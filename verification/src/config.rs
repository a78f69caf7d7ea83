//! Process-wide configuration: the AMF identity and capacity values that the
//! setup handler answers with. Built once at startup and shared read-only by
//! every concurrently processed datagram.

use vstd::prelude::*;

verus! {

/// Mathematical image of the configuration: every field as a plain value.
#[verifier::ext_equal]
pub struct ConfigView {
    pub bind_addr: Seq<char>,
    pub bind_port: u16,
    pub multithreaded: bool,
    pub amf_name: Seq<u8>,
    pub amf_region_id: u8,
    pub amf_set_id: u16,
    pub amf_pointer: u8,
    pub mcc: u16,
    pub mnc: u16,
    pub relative_amf_capacity: u8,
    pub sst: Seq<u8>,
}

/// Configuration for the core. Immutable after construction: the dispatch
/// loop may hand out read-only references to any number of workers.
pub struct CoreKubeConfig {
    pub bind_addr: String,
    pub bind_port: u16,
    pub multithreaded: bool,
    /// Bytes of the AMF name sent in the setup response.
    pub amf_name: Vec<u8>,
    /// 8-bit AMF region identifier.
    pub amf_region_id: u8,
    /// 10-bit AMF set identifier.
    pub amf_set_id: u16,
    /// 6-bit AMF pointer.
    pub amf_pointer: u8,
    /// Mobile country code, three decimal digits.
    pub mcc: u16,
    /// Mobile network code, two or three decimal digits.
    pub mnc: u16,
    pub relative_amf_capacity: u8,
    /// Supported slice/service types, one entry per octet string.
    pub sst: Vec<u8>,
}

impl DeepView for CoreKubeConfig {
    type V = ConfigView;

    open spec fn deep_view(&self) -> ConfigView {
        ConfigView {
            bind_addr: self.bind_addr@,
            bind_port: self.bind_port,
            multithreaded: self.multithreaded,
            amf_name: self.amf_name@,
            amf_region_id: self.amf_region_id,
            amf_set_id: self.amf_set_id,
            amf_pointer: self.amf_pointer,
            mcc: self.mcc,
            mnc: self.mnc,
            relative_amf_capacity: self.relative_amf_capacity,
            sst: self.sst@,
        }
    }
}

/// Width assertions on the identity bit fields (8, 10 and 6 bits), the
/// three-digit ranges of the country and network codes, and the size bounds
/// that let every field of the setup response fit its 16-bit wire length.
pub open spec fn wf_config(c: ConfigView) -> bool {
    &&& c.mcc <= 999
    &&& c.mnc <= 999
    &&& c.amf_set_id < 1024
    &&& c.amf_pointer < 64
    &&& c.amf_name.len() <= 0x4000
    &&& c.sst.len() <= 0x4000
}

impl CoreKubeConfig {
    pub open spec fn wf(&self) -> bool {
        wf_config(self.deep_view())
    }
}

/// The compiled-in default configuration.
pub open spec fn default_config() -> ConfigView {
    ConfigView {
        bind_addr: "0.0.0.0"@,
        bind_port: 9977,
        multithreaded: true,
        // The byte string "CoreKubeRS_5G_Worker".
        amf_name: seq![
            0x43u8, 0x6F, 0x72, 0x65, 0x4B, 0x75, 0x62, 0x65, 0x52, 0x53,
            0x5F, 0x35, 0x47, 0x5F, 0x57, 0x6F, 0x72, 0x6B, 0x65, 0x72,
        ],
        amf_region_id: 2,
        amf_set_id: 1,
        amf_pointer: 0,
        mcc: 208,
        mnc: 93,
        relative_amf_capacity: 255,
        sst: seq![1u8],
    }
}

impl Default for CoreKubeConfig {
    fn default() -> (r: Self)
        ensures
            r.deep_view() == default_config(),
            r.wf(),
    {
        let r = CoreKubeConfig {
            bind_addr: "0.0.0.0".to_string(),
            bind_port: 9977,
            multithreaded: true,
            amf_name: vec![
                0x43u8, 0x6F, 0x72, 0x65, 0x4B, 0x75, 0x62, 0x65, 0x52, 0x53,
                0x5F, 0x35, 0x47, 0x5F, 0x57, 0x6F, 0x72, 0x6B, 0x65, 0x72,
            ],
            amf_region_id: 2,
            amf_set_id: 1,
            amf_pointer: 0,
            mcc: 208,
            mnc: 93,
            relative_amf_capacity: 255,
            sst: vec![1u8],
        };
        proof {
            assert(r.deep_view().amf_name =~= default_config().amf_name);
            assert(r.deep_view().sst =~= default_config().sst);
            assert(r.deep_view() =~= default_config());
        }
        r
    }
}

} // verus!
