//! Signaling core of a simplified 5G AMF: an NGAP procedure dispatcher
//! (decode, validate mandatory information elements, build and encode the
//! reply) and a NAS secured-envelope parser. Every function here is verified;
//! the datagram transport around it lives outside the library.

pub mod bytes;
pub mod codec;
pub mod config;
pub mod dispatcher;
pub mod nas;
pub mod ngap;
pub mod ngap_handlers;
