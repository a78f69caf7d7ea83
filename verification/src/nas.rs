//! NAS secured-envelope parser: classifies a raw NAS payload by protocol
//! discriminator, resolves its security header, and classifies the message
//! identifier against the discriminator's closed enumeration. An
//! integrity-protected payload wraps an inner cleartext message that is
//! unwrapped at most one level.

use vstd::prelude::*;

use crate::bytes::suffix_from;

verus! {

/// NAS cause value: unspecified protocol error.
pub const NAS_UNSPECIFIED_PROTOCOL_ERROR: u8 = 111;

/// NAS cause value: message type non-existent or not implemented.
pub const NAS_MESSAGE_TYPE_NONEXISTENT: u8 = 97;

/// NAS cause value: invalid mandatory information.
pub const NAS_INVALID_MANDATORY_INFO: u8 = 96;

/// First header byte of a NAS message: which protocol family it belongs to.
#[derive(Clone, Copy, Debug, PartialEq, Eq, Structural)]
pub enum ProtocolDiscriminator {
    /// Wire value 0x7E.
    MobilityManagement,
    /// Wire value 0x2E.
    SessionManagement,
}

impl ProtocolDiscriminator {
    /// Recognized discriminator octets; anything else is unknown.
    pub open spec fn spec_from_u8(value: u8) -> Option<ProtocolDiscriminator> {
        if value == 0x7E {
            Some(ProtocolDiscriminator::MobilityManagement)
        } else if value == 0x2E {
            Some(ProtocolDiscriminator::SessionManagement)
        } else {
            None
        }
    }

    pub fn from_u8(value: u8) -> (r: Option<ProtocolDiscriminator>)
        ensures
            r == Self::spec_from_u8(value),
    {
        match value {
            0x7E => Some(ProtocolDiscriminator::MobilityManagement),
            0x2E => Some(ProtocolDiscriminator::SessionManagement),
            _ => None,
        }
    }
}

/// Second header byte: whether and how the message is protected.
#[derive(Clone, Copy, Debug, PartialEq, Eq, Structural)]
pub enum SecurityHeader {
    /// Wire value 0.
    NotProtected,
    /// Wire value 1.
    IntegrityProtected,
    /// Wire value 3.
    IntegrityProtectedAndCiphered,
    /// Wire value 4; only used with Security Mode Command.
    IntegrityProtectedWithNewSecurityContext,
    /// Wire value 5; only used with Security Mode Complete.
    IntegrityProtectedAndCipheredWithNewSecurityContext,
}

impl SecurityHeader {
    /// Recognized security-header octets; an unrecognized value is treated
    /// as an absent header, which is not fatal by itself.
    pub open spec fn spec_from_u8(value: u8) -> Option<SecurityHeader> {
        if value == 0 {
            Some(SecurityHeader::NotProtected)
        } else if value == 1 {
            Some(SecurityHeader::IntegrityProtected)
        } else if value == 3 {
            Some(SecurityHeader::IntegrityProtectedAndCiphered)
        } else if value == 4 {
            Some(SecurityHeader::IntegrityProtectedWithNewSecurityContext)
        } else if value == 5 {
            Some(SecurityHeader::IntegrityProtectedAndCipheredWithNewSecurityContext)
        } else {
            None
        }
    }

    pub fn from_u8(value: u8) -> (r: Option<SecurityHeader>)
        ensures
            r == Self::spec_from_u8(value),
    {
        match value {
            0 => Some(SecurityHeader::NotProtected),
            1 => Some(SecurityHeader::IntegrityProtected),
            3 => Some(SecurityHeader::IntegrityProtectedAndCiphered),
            4 => Some(SecurityHeader::IntegrityProtectedWithNewSecurityContext),
            5 => Some(SecurityHeader::IntegrityProtectedAndCipheredWithNewSecurityContext),
            _ => None,
        }
    }
}

/// Mobility-management (5GMM) message identifiers, each named after its
/// procedure. The wire identifier carries the 0x40 prefix in its top bits.
#[allow(non_camel_case_types)]
#[derive(Clone, Copy, Debug, PartialEq, Eq, Structural)]
pub enum MobilityMessageIdentifier {
    REGISTRATION_REQUEST,
    REGISTRATION_ACCEPT,
    REGISTRATION_COMPLETE,
    REGISTRATION_REJECT,
    DEREGISTRATION_REQUEST,
    DEREGISTRATION_ACCEPT,
    DEREGISTRATION_REQUEST_UE_ORIGINATING,
    DEREGISTRATION_ACCEPT_UE_ORIGINATING,
    SERVICE_REQUEST,
    SERVICE_REJECT,
    SERVICE_ACCEPT,
    CONTROL_PLANE_SERVICE_REQUEST,
    SLICE_SPECIFIC_AUTHENTICATION_COMMAND,
    SLICE_SPECIFIC_AUTHENTICATION_COMPLETE,
    SLICE_SPECIFIC_AUTHENTICATION_RESULT,
    CONFIGURATION_UPDATE_COMMAND,
    CONFIGURATION_UPDATE_COMPLETE,
    AUTHENTICATION_REQUEST,
    AUTHENTICATION_RESPONSE,
    AUTHENTICATION_REJECT,
    AUTHENTICATION_FAILURE,
    AUTHENTICATION_RESULT,
    IDENTITY_REQUEST,
    IDENTITY_RESPONSE,
    SECURITY_MODE_COMMAND,
    SECURITY_MODE_COMPLETE,
    SECURITY_MODE_REJECT,
    STATUS,
    NOTIFICATION,
    NOTIFICATION_RESPONSE,
    UPLINK_NAS_TRANSPORT,
    DOWNLINK_NAS_TRANSPORT,
}

impl MobilityMessageIdentifier {
    /// The closed 5GMM identifier table, 0x41 through 0x68.
    pub open spec fn spec_from_u8(value: u8) -> Option<MobilityMessageIdentifier> {
        match value {
            0x41 => Some(MobilityMessageIdentifier::REGISTRATION_REQUEST),
            0x42 => Some(MobilityMessageIdentifier::REGISTRATION_ACCEPT),
            0x43 => Some(MobilityMessageIdentifier::REGISTRATION_COMPLETE),
            0x44 => Some(MobilityMessageIdentifier::REGISTRATION_REJECT),
            0x45 => Some(MobilityMessageIdentifier::DEREGISTRATION_REQUEST),
            0x46 => Some(MobilityMessageIdentifier::DEREGISTRATION_ACCEPT),
            0x47 => Some(MobilityMessageIdentifier::DEREGISTRATION_REQUEST_UE_ORIGINATING),
            0x48 => Some(MobilityMessageIdentifier::DEREGISTRATION_ACCEPT_UE_ORIGINATING),
            0x4C => Some(MobilityMessageIdentifier::SERVICE_REQUEST),
            0x4D => Some(MobilityMessageIdentifier::SERVICE_REJECT),
            0x4E => Some(MobilityMessageIdentifier::SERVICE_ACCEPT),
            0x4F => Some(MobilityMessageIdentifier::CONTROL_PLANE_SERVICE_REQUEST),
            0x50 => Some(MobilityMessageIdentifier::SLICE_SPECIFIC_AUTHENTICATION_COMMAND),
            0x51 => Some(MobilityMessageIdentifier::SLICE_SPECIFIC_AUTHENTICATION_COMPLETE),
            0x52 => Some(MobilityMessageIdentifier::SLICE_SPECIFIC_AUTHENTICATION_RESULT),
            0x54 => Some(MobilityMessageIdentifier::CONFIGURATION_UPDATE_COMMAND),
            0x55 => Some(MobilityMessageIdentifier::CONFIGURATION_UPDATE_COMPLETE),
            0x56 => Some(MobilityMessageIdentifier::AUTHENTICATION_REQUEST),
            0x57 => Some(MobilityMessageIdentifier::AUTHENTICATION_RESPONSE),
            0x58 => Some(MobilityMessageIdentifier::AUTHENTICATION_REJECT),
            0x59 => Some(MobilityMessageIdentifier::AUTHENTICATION_FAILURE),
            0x5A => Some(MobilityMessageIdentifier::AUTHENTICATION_RESULT),
            0x5B => Some(MobilityMessageIdentifier::IDENTITY_REQUEST),
            0x5C => Some(MobilityMessageIdentifier::IDENTITY_RESPONSE),
            0x5D => Some(MobilityMessageIdentifier::SECURITY_MODE_COMMAND),
            0x5E => Some(MobilityMessageIdentifier::SECURITY_MODE_COMPLETE),
            0x5F => Some(MobilityMessageIdentifier::SECURITY_MODE_REJECT),
            0x64 => Some(MobilityMessageIdentifier::STATUS),
            0x65 => Some(MobilityMessageIdentifier::NOTIFICATION),
            0x66 => Some(MobilityMessageIdentifier::NOTIFICATION_RESPONSE),
            0x67 => Some(MobilityMessageIdentifier::UPLINK_NAS_TRANSPORT),
            0x68 => Some(MobilityMessageIdentifier::DOWNLINK_NAS_TRANSPORT),
            _ => None,
        }
    }

    pub fn from_u8(value: u8) -> (r: Option<MobilityMessageIdentifier>)
        ensures
            r == Self::spec_from_u8(value),
    {
        match value {
            0x41 => Some(MobilityMessageIdentifier::REGISTRATION_REQUEST),
            0x42 => Some(MobilityMessageIdentifier::REGISTRATION_ACCEPT),
            0x43 => Some(MobilityMessageIdentifier::REGISTRATION_COMPLETE),
            0x44 => Some(MobilityMessageIdentifier::REGISTRATION_REJECT),
            0x45 => Some(MobilityMessageIdentifier::DEREGISTRATION_REQUEST),
            0x46 => Some(MobilityMessageIdentifier::DEREGISTRATION_ACCEPT),
            0x47 => Some(MobilityMessageIdentifier::DEREGISTRATION_REQUEST_UE_ORIGINATING),
            0x48 => Some(MobilityMessageIdentifier::DEREGISTRATION_ACCEPT_UE_ORIGINATING),
            0x4C => Some(MobilityMessageIdentifier::SERVICE_REQUEST),
            0x4D => Some(MobilityMessageIdentifier::SERVICE_REJECT),
            0x4E => Some(MobilityMessageIdentifier::SERVICE_ACCEPT),
            0x4F => Some(MobilityMessageIdentifier::CONTROL_PLANE_SERVICE_REQUEST),
            0x50 => Some(MobilityMessageIdentifier::SLICE_SPECIFIC_AUTHENTICATION_COMMAND),
            0x51 => Some(MobilityMessageIdentifier::SLICE_SPECIFIC_AUTHENTICATION_COMPLETE),
            0x52 => Some(MobilityMessageIdentifier::SLICE_SPECIFIC_AUTHENTICATION_RESULT),
            0x54 => Some(MobilityMessageIdentifier::CONFIGURATION_UPDATE_COMMAND),
            0x55 => Some(MobilityMessageIdentifier::CONFIGURATION_UPDATE_COMPLETE),
            0x56 => Some(MobilityMessageIdentifier::AUTHENTICATION_REQUEST),
            0x57 => Some(MobilityMessageIdentifier::AUTHENTICATION_RESPONSE),
            0x58 => Some(MobilityMessageIdentifier::AUTHENTICATION_REJECT),
            0x59 => Some(MobilityMessageIdentifier::AUTHENTICATION_FAILURE),
            0x5A => Some(MobilityMessageIdentifier::AUTHENTICATION_RESULT),
            0x5B => Some(MobilityMessageIdentifier::IDENTITY_REQUEST),
            0x5C => Some(MobilityMessageIdentifier::IDENTITY_RESPONSE),
            0x5D => Some(MobilityMessageIdentifier::SECURITY_MODE_COMMAND),
            0x5E => Some(MobilityMessageIdentifier::SECURITY_MODE_COMPLETE),
            0x5F => Some(MobilityMessageIdentifier::SECURITY_MODE_REJECT),
            0x64 => Some(MobilityMessageIdentifier::STATUS),
            0x65 => Some(MobilityMessageIdentifier::NOTIFICATION),
            0x66 => Some(MobilityMessageIdentifier::NOTIFICATION_RESPONSE),
            0x67 => Some(MobilityMessageIdentifier::UPLINK_NAS_TRANSPORT),
            0x68 => Some(MobilityMessageIdentifier::DOWNLINK_NAS_TRANSPORT),
            _ => None,
        }
    }
}

/// Session-management (5GSM) message identifiers. The wire identifier
/// carries the 0xC0 prefix in its top bits.
#[allow(non_camel_case_types)]
#[derive(Clone, Copy, Debug, PartialEq, Eq, Structural)]
pub enum SessionMessageIdentifier {
    PDU_SESSION_ESTABLISHMENT_REQUEST,
    PDU_SESSION_ESTABLISHMENT_ACCEPT,
    PDU_SESSION_ESTABLISHMENT_REJECT,
    PDU_SESSION_AUTHENTICATION_COMMAND,
    PDU_SESSION_AUTHENTICATION_COMPLETE,
    PDU_SESSION_AUTHENTICATION_RESULT,
    PDU_SESSION_MODIFICATION_REQUEST,
    PDU_SESSION_MODIFICATION_REJECT,
    PDU_SESSION_MODIFICATION_COMMAND,
    PDU_SESSION_MODIFICATION_COMPLETE,
    PDU_SESSION_MODIFICATION_COMMAND_REJECT,
    PDU_SESSION_RELEASE_REQUEST,
    PDU_SESSION_RELEASE_REJECT,
    PDU_SESSION_RELEASE_COMMAND,
    PDU_SESSION_RELEASE_COMPLETE,
    STATUS,
}

impl SessionMessageIdentifier {
    /// The closed 5GSM identifier table, 0xC1 through 0xD6.
    pub open spec fn spec_from_u8(value: u8) -> Option<SessionMessageIdentifier> {
        match value {
            0xC1 => Some(SessionMessageIdentifier::PDU_SESSION_ESTABLISHMENT_REQUEST),
            0xC2 => Some(SessionMessageIdentifier::PDU_SESSION_ESTABLISHMENT_ACCEPT),
            0xC3 => Some(SessionMessageIdentifier::PDU_SESSION_ESTABLISHMENT_REJECT),
            0xC5 => Some(SessionMessageIdentifier::PDU_SESSION_AUTHENTICATION_COMMAND),
            0xC6 => Some(SessionMessageIdentifier::PDU_SESSION_AUTHENTICATION_COMPLETE),
            0xC7 => Some(SessionMessageIdentifier::PDU_SESSION_AUTHENTICATION_RESULT),
            0xC9 => Some(SessionMessageIdentifier::PDU_SESSION_MODIFICATION_REQUEST),
            0xCA => Some(SessionMessageIdentifier::PDU_SESSION_MODIFICATION_REJECT),
            0xCB => Some(SessionMessageIdentifier::PDU_SESSION_MODIFICATION_COMMAND),
            0xCC => Some(SessionMessageIdentifier::PDU_SESSION_MODIFICATION_COMPLETE),
            0xCD => Some(SessionMessageIdentifier::PDU_SESSION_MODIFICATION_COMMAND_REJECT),
            0xCF => Some(SessionMessageIdentifier::PDU_SESSION_RELEASE_REQUEST),
            0xD0 => Some(SessionMessageIdentifier::PDU_SESSION_RELEASE_REJECT),
            0xD1 => Some(SessionMessageIdentifier::PDU_SESSION_RELEASE_COMMAND),
            0xD2 => Some(SessionMessageIdentifier::PDU_SESSION_RELEASE_COMPLETE),
            0xD6 => Some(SessionMessageIdentifier::STATUS),
            _ => None,
        }
    }

    pub fn from_u8(value: u8) -> (r: Option<SessionMessageIdentifier>)
        ensures
            r == Self::spec_from_u8(value),
    {
        match value {
            0xC1 => Some(SessionMessageIdentifier::PDU_SESSION_ESTABLISHMENT_REQUEST),
            0xC2 => Some(SessionMessageIdentifier::PDU_SESSION_ESTABLISHMENT_ACCEPT),
            0xC3 => Some(SessionMessageIdentifier::PDU_SESSION_ESTABLISHMENT_REJECT),
            0xC5 => Some(SessionMessageIdentifier::PDU_SESSION_AUTHENTICATION_COMMAND),
            0xC6 => Some(SessionMessageIdentifier::PDU_SESSION_AUTHENTICATION_COMPLETE),
            0xC7 => Some(SessionMessageIdentifier::PDU_SESSION_AUTHENTICATION_RESULT),
            0xC9 => Some(SessionMessageIdentifier::PDU_SESSION_MODIFICATION_REQUEST),
            0xCA => Some(SessionMessageIdentifier::PDU_SESSION_MODIFICATION_REJECT),
            0xCB => Some(SessionMessageIdentifier::PDU_SESSION_MODIFICATION_COMMAND),
            0xCC => Some(SessionMessageIdentifier::PDU_SESSION_MODIFICATION_COMPLETE),
            0xCD => Some(SessionMessageIdentifier::PDU_SESSION_MODIFICATION_COMMAND_REJECT),
            0xCF => Some(SessionMessageIdentifier::PDU_SESSION_RELEASE_REQUEST),
            0xD0 => Some(SessionMessageIdentifier::PDU_SESSION_RELEASE_REJECT),
            0xD1 => Some(SessionMessageIdentifier::PDU_SESSION_RELEASE_COMMAND),
            0xD2 => Some(SessionMessageIdentifier::PDU_SESSION_RELEASE_COMPLETE),
            0xD6 => Some(SessionMessageIdentifier::STATUS),
            _ => None,
        }
    }
}

/// A message identifier resolved against the enumeration that its top two
/// bits select: 01 for mobility management, 11 for session management.
#[allow(non_camel_case_types)]
#[derive(Clone, Copy, Debug, PartialEq, Eq, Structural)]
pub enum MessageIdentifier {
    MobilityManagement(MobilityMessageIdentifier),
    SessionManagement(SessionMessageIdentifier),
}

impl MessageIdentifier {
    /// Selects the enumeration by the identifier's prefix bits, then looks
    /// the identifier up in it.
    pub open spec fn spec_from_u8(value: u8) -> Option<MessageIdentifier> {
        if value & 0xC0 == 0x40 {
            match MobilityMessageIdentifier::spec_from_u8(value) {
                Some(m) => Some(MessageIdentifier::MobilityManagement(m)),
                None => None,
            }
        } else if value & 0xC0 == 0xC0 {
            match SessionMessageIdentifier::spec_from_u8(value) {
                Some(s) => Some(MessageIdentifier::SessionManagement(s)),
                None => None,
            }
        } else {
            None
        }
    }

    pub fn from_u8(value: u8) -> (r: Option<MessageIdentifier>)
        ensures
            r == Self::spec_from_u8(value),
    {
        if value & 0xC0 == 0x40 {
            match MobilityMessageIdentifier::from_u8(value) {
                Some(m) => Some(MessageIdentifier::MobilityManagement(m)),
                None => None,
            }
        } else if value & 0xC0 == 0xC0 {
            match SessionMessageIdentifier::from_u8(value) {
                Some(s) => Some(MessageIdentifier::SessionManagement(s)),
                None => None,
            }
        } else {
            None
        }
    }
}

/// A classified NAS message: the header classification computed once from
/// the first bytes, the payload after the header, and, when the header
/// indicated protection and inner decoding was requested, the parsed inner
/// cleartext message.
#[derive(Debug, PartialEq, Eq)]
pub struct NasEnvelope {
    pub protocol_discriminator: ProtocolDiscriminator,
    pub security_header: Option<SecurityHeader>,
    pub message_identifier: Option<MessageIdentifier>,
    pub payload: Vec<u8>,
    pub inner: Option<Box<NasEnvelope>>,
}

/// Mathematical image of an envelope, with the payload as a byte sequence.
#[verifier::ext_equal]
pub struct NasEnvelopeView {
    pub protocol_discriminator: ProtocolDiscriminator,
    pub security_header: Option<SecurityHeader>,
    pub message_identifier: Option<MessageIdentifier>,
    pub payload: Seq<u8>,
    pub inner: Option<Box<NasEnvelopeView>>,
}

/// Mathematical image of an envelope, unwrapping each nesting level.
pub open spec fn envelope_view(e: NasEnvelope) -> NasEnvelopeView
    decreases e,
{
    NasEnvelopeView {
        protocol_discriminator: e.protocol_discriminator,
        security_header: e.security_header,
        message_identifier: e.message_identifier,
        payload: e.payload@,
        inner: match e.inner {
            Some(b) => Some(Box::new(envelope_view(*b))),
            None => None,
        },
    }
}

impl DeepView for NasEnvelope {
    type V = NasEnvelopeView;

    open spec fn deep_view(&self) -> NasEnvelopeView {
        envelope_view(*self)
    }
}

/// Relates an executable parse result to its mathematical counterpart.
pub open spec fn parse_result_matches(
    r: Result<NasEnvelope, u8>,
    s: Result<NasEnvelopeView, u8>,
) -> bool {
    match s {
        Ok(v) => r matches Ok(e) && e.deep_view() == v,
        Err(c) => r matches Err(d) && d == c,
    }
}

/// Looks a mobility-management identifier up, rejecting identifiers whose
/// prefix bits select the wrong enumeration.
pub open spec fn spec_fgmm_type_classes(typ: u8) -> Option<MobilityMessageIdentifier> {
    match MessageIdentifier::spec_from_u8(typ) {
        Some(MessageIdentifier::MobilityManagement(m)) => Some(m),
        _ => None,
    }
}

/// Looks a session-management identifier up, rejecting identifiers whose
/// prefix bits select the wrong enumeration.
pub open spec fn spec_fgsm_type_classes(typ: u8) -> Option<SessionMessageIdentifier> {
    match MessageIdentifier::spec_from_u8(typ) {
        Some(MessageIdentifier::SessionManagement(s)) => Some(s),
        _ => None,
    }
}

/// Classification of an unprotected mobility-management message: byte 2 is
/// the message identifier, the payload is everything after it.
pub open spec fn spec_classify_mm(
    buf: Seq<u8>,
    sht: Option<SecurityHeader>,
) -> Result<NasEnvelopeView, u8> {
    match spec_fgmm_type_classes(buf[2]) {
        Some(m) => Ok(NasEnvelopeView {
            protocol_discriminator: ProtocolDiscriminator::MobilityManagement,
            security_header: sht,
            message_identifier: Some(MessageIdentifier::MobilityManagement(m)),
            payload: buf.skip(3),
            inner: None,
        }),
        None => Err(NAS_MESSAGE_TYPE_NONEXISTENT),
    }
}

/// Classification of a session-management message: byte 3 must carry the
/// session type discriminator, byte 2 is the message identifier.
pub open spec fn spec_classify_sm(
    buf: Seq<u8>,
    sht: Option<SecurityHeader>,
) -> Result<NasEnvelopeView, u8> {
    if buf.len() < 4 {
        Err(NAS_INVALID_MANDATORY_INFO)
    } else {
        match spec_fgsm_type_classes(buf[2]) {
            Some(s) => Ok(NasEnvelopeView {
                protocol_discriminator: ProtocolDiscriminator::SessionManagement,
                security_header: sht,
                message_identifier: Some(MessageIdentifier::SessionManagement(s)),
                payload: buf.skip(3),
                inner: None,
            }),
            None => Err(NAS_MESSAGE_TYPE_NONEXISTENT),
        }
    }
}

/// Resolving the security-protected frame (stripping MAC and sequence
/// number) is an unimplemented placeholder in this version: no frame can be
/// resolved yet.
pub open spec fn spec_parse_sec_prot_nas(
    buf: Seq<u8>,
    inner: bool,
    null_cipher: bool,
) -> Option<Seq<u8>> {
    None
}

/// What becomes of a protected payload once the security frame has been
/// resolved to the inner byte buffer: when inner decoding was requested and
/// the header was integrity-protected only (or a null cipher was explicitly
/// requested), the inner buffer is parsed recursively, one level at most;
/// otherwise it is returned unexamined.
pub open spec fn spec_resolve_protected(
    sht: SecurityHeader,
    inner_buf: Seq<u8>,
    inner: bool,
    null_cipher: bool,
) -> Result<NasEnvelopeView, u8>
    decreases 1int,
{
    if inner && (sht == SecurityHeader::IntegrityProtected
        || sht == SecurityHeader::IntegrityProtectedWithNewSecurityContext || null_cipher) {
        match spec_parse(inner_buf, inner, true, false) {
            Ok(ie) => Ok(NasEnvelopeView {
                protocol_discriminator: ProtocolDiscriminator::MobilityManagement,
                security_header: Some(sht),
                message_identifier: None,
                payload: inner_buf,
                inner: Some(Box::new(ie)),
            }),
            Err(c) => Err(c),
        }
    } else {
        Ok(NasEnvelopeView {
            protocol_discriminator: ProtocolDiscriminator::MobilityManagement,
            security_header: Some(sht),
            message_identifier: None,
            payload: inner_buf,
            inner: None,
        })
    }
}

/// The whole parse, as a mathematical function of the buffer and the three
/// flags: header classification, the protected detour for mobility
/// management, and message-identifier classification otherwise.
pub open spec fn spec_parse(
    buf: Seq<u8>,
    inner: bool,
    already_unwrapped: bool,
    null_cipher: bool,
) -> Result<NasEnvelopeView, u8>
    decreases (if already_unwrapped { 0int } else { 2int }),
{
    if buf.len() < 3 {
        Err(NAS_UNSPECIFIED_PROTOCOL_ERROR)
    } else {
        match ProtocolDiscriminator::spec_from_u8(buf[0]) {
            None => Err(NAS_UNSPECIFIED_PROTOCOL_ERROR),
            Some(ProtocolDiscriminator::SessionManagement) => {
                spec_classify_sm(buf, SecurityHeader::spec_from_u8(buf[1]))
            },
            Some(ProtocolDiscriminator::MobilityManagement) => {
                match SecurityHeader::spec_from_u8(buf[1]) {
                    Some(s) => if s == SecurityHeader::NotProtected {
                        spec_classify_mm(buf, Some(s))
                    } else if already_unwrapped {
                        // more than one level of protection is a protocol error
                        Err(NAS_UNSPECIFIED_PROTOCOL_ERROR)
                    } else {
                        match spec_parse_sec_prot_nas(buf, inner, null_cipher) {
                            None => Err(NAS_INVALID_MANDATORY_INFO),
                            Some(ib) => spec_resolve_protected(s, ib, inner, null_cipher),
                        }
                    },
                    None => spec_classify_mm(buf, None),
                }
            },
        }
    }
}

/// Mobility-management identifier classification: the identifier maps into
/// the 5GMM enumeration only if its prefix bits select it.
pub fn fgmm_type_classes(typ: u8) -> (r: Option<MobilityMessageIdentifier>)
    ensures
        r == spec_fgmm_type_classes(typ),
{
    match MessageIdentifier::from_u8(typ) {
        Some(MessageIdentifier::MobilityManagement(m)) => Some(m),
        _ => None,
    }
}

/// Session-management identifier classification: the identifier maps into
/// the 5GSM enumeration only if its prefix bits select it.
pub fn fgsm_type_classes(typ: u8) -> (r: Option<SessionMessageIdentifier>)
    ensures
        r == spec_fgsm_type_classes(typ),
{
    match MessageIdentifier::from_u8(typ) {
        Some(MessageIdentifier::SessionManagement(s)) => Some(s),
        _ => None,
    }
}

/// Classifies an unprotected mobility-management message.
fn classify_mobility(buf: &Vec<u8>, sht: Option<SecurityHeader>) -> (r: Result<NasEnvelope, u8>)
    requires
        buf@.len() >= 3,
    ensures
        parse_result_matches(r, spec_classify_mm(buf@, sht)),
{
    match fgmm_type_classes(buf[2]) {
        Some(m) => {
            let payload = suffix_from(buf, 3);
            Ok(NasEnvelope {
                protocol_discriminator: ProtocolDiscriminator::MobilityManagement,
                security_header: sht,
                message_identifier: Some(MessageIdentifier::MobilityManagement(m)),
                payload,
                inner: None,
            })
        },
        None => Err(NAS_MESSAGE_TYPE_NONEXISTENT),
    }
}

/// Classifies a session-management message.
fn classify_session(buf: &Vec<u8>, sht: Option<SecurityHeader>) -> (r: Result<NasEnvelope, u8>)
    requires
        buf@.len() >= 3,
    ensures
        parse_result_matches(r, spec_classify_sm(buf@, sht)),
{
    if buf.len() < 4 {
        // the PDU session type discriminator in byte 3 is mandatory
        return Err(NAS_INVALID_MANDATORY_INFO);
    }
    match fgsm_type_classes(buf[2]) {
        Some(s) => {
            let payload = suffix_from(buf, 3);
            Ok(NasEnvelope {
                protocol_discriminator: ProtocolDiscriminator::SessionManagement,
                security_header: sht,
                message_identifier: Some(MessageIdentifier::SessionManagement(s)),
                payload,
                inner: None,
            })
        },
        None => Err(NAS_MESSAGE_TYPE_NONEXISTENT),
    }
}

/// Resolves a security-protected NAS frame to its inner byte buffer.
/// Stripping the MAC and sequence number is an unimplemented placeholder in
/// this version: every frame is reported as unresolvable, which the caller
/// turns into an invalid-mandatory-information cause.
pub fn parse_sec_prot_nas(buf: Vec<u8>, inner: bool, null_cipher: bool) -> (r: Option<Vec<u8>>)
    ensures
        r is None,
        spec_parse_sec_prot_nas(buf@, inner, null_cipher) is None,
{
    None
}

/// Continues a protected mobility-management parse once the security frame
/// has been resolved to the inner byte buffer: when inner decoding was
/// requested and the header was integrity-protected only (or a null cipher
/// was explicitly requested), the inner buffer is parsed recursively rather
/// than returned raw; the recursive parse runs with the already-unwrapped
/// flag set, so it can never unwrap a second level.
pub fn resolve_protected_payload(
    sht: SecurityHeader,
    inner_buf: Vec<u8>,
    inner: bool,
    null_cipher: bool,
) -> (r: Result<NasEnvelope, u8>)
    ensures
        parse_result_matches(r, spec_resolve_protected(sht, inner_buf@, inner, null_cipher)),
    decreases 1int,
{
    if inner && (sht == SecurityHeader::IntegrityProtected
        || sht == SecurityHeader::IntegrityProtectedWithNewSecurityContext || null_cipher) {
        let payload = suffix_from(&inner_buf, 0);
        proof {
            assert(payload@ =~= inner_buf@);
        }
        match parse(inner_buf, inner, true, false) {
            Ok(ie) => Ok(NasEnvelope {
                protocol_discriminator: ProtocolDiscriminator::MobilityManagement,
                security_header: Some(sht),
                message_identifier: None,
                payload,
                inner: Some(Box::new(ie)),
            }),
            Err(c) => Err(c),
        }
    } else {
        Ok(NasEnvelope {
            protocol_discriminator: ProtocolDiscriminator::MobilityManagement,
            security_header: Some(sht),
            message_identifier: None,
            payload: inner_buf,
            inner: None,
        })
    }
}

/// Parses a raw NAS payload: protocol discriminator in byte 0, security
/// header in byte 1, then either the protected-frame detour (mobility
/// management only) or message-identifier classification. Errors are the
/// NAS cause values, never a panic, whatever the buffer holds.
pub fn parse(buf: Vec<u8>, inner: bool, already_unwrapped: bool, null_cipher: bool) -> (r: Result<
    NasEnvelope,
    u8,
>)
    ensures
        parse_result_matches(r, spec_parse(buf@, inner, already_unwrapped, null_cipher)),
    decreases (if already_unwrapped { 0int } else { 2int }),
{
    if buf.len() < 3 {
        return Err(NAS_UNSPECIFIED_PROTOCOL_ERROR);
    }
    let pd = match ProtocolDiscriminator::from_u8(buf[0]) {
        None => {
            return Err(NAS_UNSPECIFIED_PROTOCOL_ERROR);
        },
        Some(pd) => pd,
    };
    let sht = SecurityHeader::from_u8(buf[1]);
    if pd == ProtocolDiscriminator::SessionManagement {
        classify_session(&buf, sht)
    } else {
        match sht {
            Some(s) => if s == SecurityHeader::NotProtected {
                classify_mobility(&buf, sht)
            } else if already_unwrapped {
                // more than one level of protection is a protocol error
                Err(NAS_UNSPECIFIED_PROTOCOL_ERROR)
            } else {
                match parse_sec_prot_nas(buf, inner, null_cipher) {
                    None => Err(NAS_INVALID_MANDATORY_INFO),
                    Some(m) => resolve_protected_payload(s, m, inner, null_cipher),
                }
            },
            None => classify_mobility(&buf, None),
        }
    }
}

/// A buffer shorter than the three header bytes always fails with the
/// unspecified-protocol-error cause, whatever the flags.
pub proof fn lemma_nas_short_buffer(buf: Seq<u8>, inner: bool, already_unwrapped: bool, null_cipher: bool)
    requires
        buf.len() < 3,
    ensures
        spec_parse(buf, inner, already_unwrapped, null_cipher) == Err::<
            NasEnvelopeView,
            u8,
        >(NAS_UNSPECIFIED_PROTOCOL_ERROR),
{
}

/// When inner decoding is requested and the header is integrity-protected
/// (or a null cipher is explicitly requested), a resolved protected payload
/// is parsed recursively rather than returned raw: on success the envelope
/// wraps the parsed inner message.
pub proof fn lemma_protected_inner_decoded(
    sht: SecurityHeader,
    inner_buf: Seq<u8>,
    inner: bool,
    null_cipher: bool,
)
    requires
        inner,
        sht == SecurityHeader::IntegrityProtected
            || sht == SecurityHeader::IntegrityProtectedWithNewSecurityContext || null_cipher,
        spec_parse(inner_buf, inner, true, false) is Ok,
    ensures
        spec_resolve_protected(sht, inner_buf, inner, null_cipher) matches Ok(e) && e.inner
            == Some(Box::new(spec_parse(inner_buf, inner, true, false)->Ok_0)),
{
}

} // verus!
