use const_oid::ObjectIdentifier;
use spdm_x509::certificate::{Extension, Extensions, Version};
use spdm_x509::error::{Asn1Error, Error};
use spdm_x509::oid::Oid;
use spdm_x509::text::{decimal, hex, hex2, hex_encode, signed_decimal};

#[test]
fn test_version() {
    assert_eq!(Version::V1.value(), 0);
    assert_eq!(Version::V2.value(), 1);
    assert_eq!(Version::V3.value(), 2);
    assert_eq!(Version::default(), Version::V3);

    assert_eq!(Version::from_value(0).unwrap(), Version::V1);
    assert_eq!(Version::from_value(1).unwrap(), Version::V2);
    assert_eq!(Version::from_value(2).unwrap(), Version::V3);
    assert!(Version::from_value(3).is_err());
}

#[test]
fn test_version_display() {
    assert_eq!(Version::V1.to_text(), "v1");
    assert_eq!(Version::V2.to_text(), "v2");
    assert_eq!(Version::V3.to_text(), "v3");
}

#[test]
fn test_extensions_new() {
    let ext = Extensions::new();
    assert!(ext.is_empty());
    assert_eq!(ext.len(), 0);
}

#[test]
fn test_extension_create() {
    // Basic Constraints OID: 2.5.29.19
    let oid = Oid::from_bytes(ObjectIdentifier::new_unwrap("2.5.29.19").as_bytes());
    let value = vec![0x30, 0x03, 0x01, 0x01, 0xFF]; // SEQUENCE { BOOLEAN TRUE }

    let ext = Extension::new(oid.clone(), true, value.clone()).unwrap();
    assert_eq!(ext.extn_id, oid);
    assert!(ext.critical);
    assert_eq!(ext.value(), &value);
}

#[test]
fn test_hex_encode() {
    assert_eq!(hex_encode(&[0xDE, 0xAD, 0xBE, 0xEF]), "deadbeef");
    assert_eq!(hex_encode(&[0x00, 0xFF]), "00ff");
    assert_eq!(hex_encode(&[]), "");
}

#[test]
fn version_value_round_trip() {
    for v in [Version::V1, Version::V2, Version::V3] {
        assert_eq!(Version::from_value(v.value()).unwrap(), v);
    }
    assert_eq!(Version::from_value(200), Err(Error::Asn1(Asn1Error::InvalidValue)));
}

#[test]
fn number_texts() {
    assert_eq!(decimal(0), "0");
    assert_eq!(decimal(4096), "4096");
    assert_eq!(decimal(u64::MAX), "18446744073709551615");
    assert_eq!(signed_decimal(-42), "-42");
    assert_eq!(signed_decimal(i64::MIN), "-9223372036854775808");
    assert_eq!(hex(0), "0");
    assert_eq!(hex(0x1f2e), "1f2e");
    assert_eq!(hex2(0x0a), "0a");
}

#[test]
fn extensions_collect_and_find() {
    let bc = Oid::from_bytes(ObjectIdentifier::new_unwrap("2.5.29.19").as_bytes());
    let ku = Oid::from_bytes(ObjectIdentifier::new_unwrap("2.5.29.15").as_bytes());
    let mut exts = Extensions::new();
    exts.push(Extension::new(ku.clone(), true, vec![0x03, 0x02, 0x01, 0x06]).unwrap());
    exts.push(Extension::new(bc.clone(), false, vec![0x30, 0x00]).unwrap());
    exts.push(Extension::new(bc.clone(), true, vec![0x30, 0x03, 0x01, 0x01, 0xFF]).unwrap());
    assert_eq!(exts.len(), 3);
    assert!(!exts.is_empty());
    let found = exts.find(&bc).unwrap();
    assert!(!found.critical);
    assert_eq!(found.value(), &[0x30, 0x00]);
    let other = Oid::from_bytes(ObjectIdentifier::new_unwrap("2.5.29.17").as_bytes());
    assert!(exts.find(&other).is_none());
    assert_eq!(exts.iter().len(), 3);
}
