//! Tests of the NAS envelope parser: header classification, message
//! identifier tables, cause codes, and the one-level recursive unwrap.

use corekube::nas::{
    fgmm_type_classes, fgsm_type_classes, parse, parse_sec_prot_nas, resolve_protected_payload,
    MessageIdentifier, MobilityMessageIdentifier, ProtocolDiscriminator, SecurityHeader,
    SessionMessageIdentifier, NAS_INVALID_MANDATORY_INFO, NAS_MESSAGE_TYPE_NONEXISTENT,
    NAS_UNSPECIFIED_PROTOCOL_ERROR,
};

#[test]
fn short_buffer_is_a_protocol_error() {
    assert_eq!(
        parse(vec![0x7E, 0x00], true, false, false),
        Err(NAS_UNSPECIFIED_PROTOCOL_ERROR)
    );
    assert_eq!(parse(vec![], false, false, false), Err(NAS_UNSPECIFIED_PROTOCOL_ERROR));
}

#[test]
fn unprotected_registration_request_classifies() {
    let envelope = parse(vec![0x7E, 0x00, 0x41], true, false, false).unwrap();
    assert_eq!(
        envelope.protocol_discriminator,
        ProtocolDiscriminator::MobilityManagement
    );
    assert_eq!(envelope.security_header, Some(SecurityHeader::NotProtected));
    assert_eq!(
        envelope.message_identifier,
        Some(MessageIdentifier::MobilityManagement(
            MobilityMessageIdentifier::REGISTRATION_REQUEST
        ))
    );
    assert_eq!(envelope.payload, Vec::<u8>::new());
    assert!(envelope.inner.is_none());
}

#[test]
fn unknown_discriminator_is_a_protocol_error() {
    assert_eq!(
        parse(vec![0x00, 0x00, 0x41], true, false, false),
        Err(NAS_UNSPECIFIED_PROTOCOL_ERROR)
    );
}

#[test]
fn unknown_mobility_identifier_is_nonexistent() {
    // 0x69 carries the mobility prefix but is outside the table
    assert_eq!(
        parse(vec![0x7E, 0x00, 0x69], true, false, false),
        Err(NAS_MESSAGE_TYPE_NONEXISTENT)
    );
    // 0xC1 carries the session prefix, wrong for a mobility message
    assert_eq!(
        parse(vec![0x7E, 0x00, 0xC1], true, false, false),
        Err(NAS_MESSAGE_TYPE_NONEXISTENT)
    );
}

#[test]
fn unrecognized_security_header_is_treated_as_absent() {
    let envelope = parse(vec![0x7E, 0x0F, 0x41], true, false, false).unwrap();
    assert_eq!(envelope.security_header, None);
    assert_eq!(
        envelope.message_identifier,
        Some(MessageIdentifier::MobilityManagement(
            MobilityMessageIdentifier::REGISTRATION_REQUEST
        ))
    );
}

#[test]
fn session_establishment_request_classifies() {
    let envelope = parse(vec![0x2E, 0x00, 0xC1, 0x01], true, false, false).unwrap();
    assert_eq!(
        envelope.protocol_discriminator,
        ProtocolDiscriminator::SessionManagement
    );
    assert_eq!(
        envelope.message_identifier,
        Some(MessageIdentifier::SessionManagement(
            SessionMessageIdentifier::PDU_SESSION_ESTABLISHMENT_REQUEST
        ))
    );
    assert_eq!(envelope.payload, vec![0x01]);
}

#[test]
fn session_without_type_byte_is_invalid_mandatory_info() {
    assert_eq!(
        parse(vec![0x2E, 0x00, 0xC1], true, false, false),
        Err(NAS_INVALID_MANDATORY_INFO)
    );
}

#[test]
fn session_with_mobility_identifier_is_nonexistent() {
    assert_eq!(
        parse(vec![0x2E, 0x00, 0x41, 0x01], true, false, false),
        Err(NAS_MESSAGE_TYPE_NONEXISTENT)
    );
}

#[test]
fn protected_frame_resolution_is_unimplemented() {
    // stripping the security frame is a placeholder, so a protected
    // mobility-management message reports missing mandatory information
    assert_eq!(parse_sec_prot_nas(vec![0x7E, 0x01, 0x41], true, false), None);
    assert_eq!(
        parse(vec![0x7E, 0x01, 0x41, 0x00], true, false, true),
        Err(NAS_INVALID_MANDATORY_INFO)
    );
}

#[test]
fn resolved_integrity_protected_payload_is_parsed_recursively() {
    // inner decoding requested on an integrity-protected frame: the inner
    // buffer is classified rather than returned raw
    let envelope = resolve_protected_payload(
        SecurityHeader::IntegrityProtected,
        vec![0x7E, 0x00, 0x41],
        true,
        false,
    )
    .unwrap();
    assert_eq!(envelope.security_header, Some(SecurityHeader::IntegrityProtected));
    assert_eq!(envelope.message_identifier, None);
    let inner = envelope.inner.expect("the inner message must be parsed");
    assert_eq!(
        inner.message_identifier,
        Some(MessageIdentifier::MobilityManagement(
            MobilityMessageIdentifier::REGISTRATION_REQUEST
        ))
    );
}

#[test]
fn resolved_null_cipher_payload_is_parsed_recursively() {
    let envelope = resolve_protected_payload(
        SecurityHeader::IntegrityProtectedAndCiphered,
        vec![0x7E, 0x00, 0x41],
        true,
        true,
    )
    .unwrap();
    assert!(envelope.inner.is_some());
}

#[test]
fn resolved_ciphered_payload_is_returned_raw() {
    // ciphered without an explicit null cipher: the inner bytes stay unexamined
    let envelope = resolve_protected_payload(
        SecurityHeader::IntegrityProtectedAndCiphered,
        vec![0x7E, 0x00, 0x41],
        true,
        false,
    )
    .unwrap();
    assert!(envelope.inner.is_none());
    assert_eq!(envelope.payload, vec![0x7E, 0x00, 0x41]);
}

#[test]
fn second_unwrap_level_is_rejected() {
    // the already-unwrapped recursion meets another protected header
    assert_eq!(
        resolve_protected_payload(
            SecurityHeader::IntegrityProtected,
            vec![0x7E, 0x01, 0x41],
            true,
            false,
        ),
        Err(NAS_UNSPECIFIED_PROTOCOL_ERROR)
    );
}

#[test]
fn identifier_tables_follow_the_prefix_bits() {
    assert_eq!(
        MessageIdentifier::from_u8(0x41),
        Some(MessageIdentifier::MobilityManagement(
            MobilityMessageIdentifier::REGISTRATION_REQUEST
        ))
    );
    assert_eq!(
        MessageIdentifier::from_u8(0xD6),
        Some(MessageIdentifier::SessionManagement(SessionMessageIdentifier::STATUS))
    );
    assert_eq!(MessageIdentifier::from_u8(0x00), None);
    assert_eq!(MessageIdentifier::from_u8(0x80), None);
    assert_eq!(
        fgmm_type_classes(0x68),
        Some(MobilityMessageIdentifier::DOWNLINK_NAS_TRANSPORT)
    );
    assert_eq!(fgmm_type_classes(0xC1), None);
    assert_eq!(
        fgsm_type_classes(0xCF),
        Some(SessionMessageIdentifier::PDU_SESSION_RELEASE_REQUEST)
    );
    assert_eq!(fgsm_type_classes(0x41), None);
}

#[test]
fn security_header_table() {
    assert_eq!(SecurityHeader::from_u8(0), Some(SecurityHeader::NotProtected));
    assert_eq!(SecurityHeader::from_u8(1), Some(SecurityHeader::IntegrityProtected));
    assert_eq!(SecurityHeader::from_u8(2), None);
    assert_eq!(
        SecurityHeader::from_u8(3),
        Some(SecurityHeader::IntegrityProtectedAndCiphered)
    );
    assert_eq!(
        SecurityHeader::from_u8(4),
        Some(SecurityHeader::IntegrityProtectedWithNewSecurityContext)
    );
    assert_eq!(
        SecurityHeader::from_u8(5),
        Some(SecurityHeader::IntegrityProtectedAndCipheredWithNewSecurityContext)
    );
    assert_eq!(SecurityHeader::from_u8(6), None);
}

#[test]
fn protocol_discriminator_table() {
    assert_eq!(
        ProtocolDiscriminator::from_u8(0x7E),
        Some(ProtocolDiscriminator::MobilityManagement)
    );
    assert_eq!(
        ProtocolDiscriminator::from_u8(0x2E),
        Some(ProtocolDiscriminator::SessionManagement)
    );
    assert_eq!(ProtocolDiscriminator::from_u8(0x7F), None);
}
