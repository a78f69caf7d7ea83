//! One handler per supported NGAP procedure. Each is a pure function from
//! the configuration and the decoded request to a sequence of response
//! envelopes; nothing is kept across calls.

pub mod initial_ue_message;
pub mod response;
pub mod setup_request;
pub mod uplink_nas_transport;

pub use initial_ue_message::handle_initial_ue_message;
pub use response::ByteResponse;
pub use response::NGAPResponse;
pub use setup_request::handle_setup_request;
pub use uplink_nas_transport::handle_uplink_nas_transport;
