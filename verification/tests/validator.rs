use spdm_x509::oid::{
    hardware_identity, id_sha256, id_sha384, rsa_encryption, spdm_extension, spdm_requester_auth, spdm_responder_auth,
};
use spdm_x509::spdm::oids;
use spdm_x509::spdm::validator::{SpdmCertificateModel, SpdmCertificateRole, SpdmValidator};
use spdm_x509::validator::{ValidationOptions, Validator};

#[test]
fn validator_test_validation_options() {
    let opts = ValidationOptions::default();
    assert!(opts.check_time);
    assert!(opts.check_signature);
    assert!(opts.check_extensions);
    assert_eq!(opts.max_chain_depth, 10);

    let opts = ValidationOptions::new()
        .skip_time_validation()
        .skip_signature_validation()
        .with_max_chain_depth(5);
    assert!(!opts.check_time);
    assert!(!opts.check_signature);
    assert_eq!(opts.max_chain_depth, 5);
}

#[test]
fn validator_test_validator_creation() {
    let _validator = Validator::new();
    let _validator2 = Validator::default();
}

#[test]
fn test_certificate_model() {
    assert_eq!(SpdmCertificateModel::DeviceCert.value(), 0);
    assert_eq!(SpdmCertificateModel::AliasCert.value(), 1);
    assert_eq!(SpdmCertificateModel::GenericCert.value(), 2);

    assert_eq!(SpdmCertificateModel::from_value(0).unwrap(), SpdmCertificateModel::DeviceCert);
    assert_eq!(SpdmCertificateModel::from_value(1).unwrap(), SpdmCertificateModel::AliasCert);
    assert_eq!(SpdmCertificateModel::from_value(2).unwrap(), SpdmCertificateModel::GenericCert);

    assert!(SpdmCertificateModel::from_value(3).is_err());
}

#[test]
fn validator_test_certificate_model_names() {
    assert_eq!(SpdmCertificateModel::DeviceCert.name(), "DeviceCert");
    assert_eq!(SpdmCertificateModel::AliasCert.name(), "AliasCert");
    assert_eq!(SpdmCertificateModel::GenericCert.name(), "GenericCert");
}

#[test]
fn validator_test_certificate_role_names() {
    assert_eq!(SpdmCertificateRole::Requester.name(), "Requester");
    assert_eq!(SpdmCertificateRole::Responder.name(), "Responder");
}

#[test]
fn test_certificate_model_from_value() {
    assert_eq!(SpdmCertificateModel::from_value(0).unwrap(), SpdmCertificateModel::DeviceCert);
    assert_eq!(SpdmCertificateModel::from_value(1).unwrap(), SpdmCertificateModel::AliasCert);
    assert_eq!(SpdmCertificateModel::from_value(2).unwrap(), SpdmCertificateModel::GenericCert);
}

#[test]
fn test_certificate_model_invalid_value() {
    assert!(SpdmCertificateModel::from_value(3).is_err());
    assert!(SpdmCertificateModel::from_value(255).is_err());
}

#[test]
fn spdm_validation_tests_test_certificate_model_names() {
    assert_eq!(SpdmCertificateModel::DeviceCert.name(), "DeviceCert");
    assert_eq!(SpdmCertificateModel::AliasCert.name(), "AliasCert");
    assert_eq!(SpdmCertificateModel::GenericCert.name(), "GenericCert");
}

#[test]
fn test_certificate_model_values() {
    assert_eq!(SpdmCertificateModel::DeviceCert.value(), 0);
    assert_eq!(SpdmCertificateModel::AliasCert.value(), 1);
    assert_eq!(SpdmCertificateModel::GenericCert.value(), 2);
}

#[test]
fn spdm_validation_tests_test_certificate_role_names() {
    assert_eq!(SpdmCertificateRole::Requester.name(), "Requester");
    assert_eq!(SpdmCertificateRole::Responder.name(), "Responder");
}

#[test]
fn test_is_spdm_oid() {
    assert!(oids::is_spdm_oid(&spdm_requester_auth()));
    assert!(oids::is_spdm_oid(&spdm_responder_auth()));
    assert!(oids::is_spdm_oid(&spdm_extension()));
    assert!(oids::is_spdm_oid(&hardware_identity()));

    // Non-SPDM OIDs
    assert!(!oids::is_spdm_oid(&id_sha256()));
    assert!(!oids::is_spdm_oid(&id_sha384()));
    assert!(!oids::is_spdm_oid(&rsa_encryption()));
}

#[test]
fn test_is_hardware_identity() {
    assert!(oids::is_hardware_identity(&hardware_identity()));
    assert!(!oids::is_hardware_identity(&spdm_extension()));
    assert!(!oids::is_hardware_identity(&spdm_requester_auth()));
}

#[test]
fn test_is_spdm_eku() {
    assert!(oids::is_spdm_eku(&spdm_requester_auth()));
    assert!(oids::is_spdm_eku(&spdm_responder_auth()));
    assert!(!oids::is_spdm_eku(&spdm_extension()));
    assert!(!oids::is_spdm_eku(&hardware_identity()));
}

#[test]
fn test_spdm_validator_creation() {
    let validator = SpdmValidator::new();
    drop(validator);
}

#[test]
fn test_spdm_validator_default() {
    let validator1 = SpdmValidator::new();
    let validator2 = SpdmValidator::default();
    drop(validator1);
    drop(validator2);
}

#[test]
fn test_validator_is_reusable() {
    let validator = SpdmValidator::new();
    drop(validator);
}

#[test]
fn certificate_model_value_round_trip() {
    for v in 0u8..=255 {
        match SpdmCertificateModel::from_value(v) {
            Ok(m) => assert_eq!(m.value(), v),
            Err(e) => {
                assert!(v > 2);
                assert_eq!(
                    e,
                    spdm_x509::error::Error::ValidationError(format!("Invalid SPDM certificate model: {}", v))
                );
            }
        }
    }
}

#[test]
fn options_are_independent() {
    let base = ValidationOptions::new();
    let changed = base.skip_signature_validation();
    assert!(base.check_signature);
    assert!(!changed.check_signature);
    assert!(changed.check_time);
    assert_eq!(changed.max_chain_depth, 10);
}
