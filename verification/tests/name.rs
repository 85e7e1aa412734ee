use spdm_x509::der::AnyValue;
use spdm_x509::directory_string::DirectoryString;
use spdm_x509::error::{Asn1Error, Error};
use spdm_x509::general_name::{GeneralName, SubjectAltName};
use spdm_x509::name::{AttributeTypeAndValue, RDNSequence, RelativeDistinguishedName};
use spdm_x509::oid::{common_name, country_name, domain_component, organization_name, Oid};

#[test]
fn test_directory_string_utf8() {
    let ds = DirectoryString::Utf8String("Hello World".to_string());
    assert_eq!(ds.as_str().unwrap(), "Hello World");
    assert_eq!(ds.to_text(), "Hello World");
}

#[test]
fn test_attribute_type_and_value() {
    let attr = AttributeTypeAndValue::new_utf8(common_name(), "Example Corp").unwrap();
    assert_eq!(attr.oid, common_name());
    assert_eq!(attr.value_as_str().unwrap(), "Example Corp");
    assert_eq!(attr.attr_name(), "CN");
    assert_eq!(attr.to_text(), "CN=Example Corp");
}

#[test]
fn test_rdn() {
    let attr = AttributeTypeAndValue::new_utf8(common_name(), "Test").unwrap();
    let rdn = RelativeDistinguishedName::new(attr).unwrap();
    assert!(!rdn.is_multi_valued());
    assert_eq!(rdn.to_text(), "CN=Test");
}

#[test]
fn test_rdn_sequence() {
    let mut name = RDNSequence::new();

    let cn_attr = AttributeTypeAndValue::new_utf8(common_name(), "John Doe").unwrap();
    let cn_rdn = RelativeDistinguishedName::new(cn_attr).unwrap();
    name.push(cn_rdn);

    let o_attr = AttributeTypeAndValue::new_utf8(organization_name(), "Example Inc").unwrap();
    let o_rdn = RelativeDistinguishedName::new(o_attr).unwrap();
    name.push(o_rdn);

    let c_attr = AttributeTypeAndValue::new_printable(country_name(), "US").unwrap();
    let c_rdn = RelativeDistinguishedName::new(c_attr).unwrap();
    name.push(c_rdn);

    assert_eq!(name.common_name().unwrap(), "John Doe");
    assert_eq!(name.organization().unwrap(), "Example Inc");
    assert_eq!(name.country().unwrap(), "US");

    // DN should display in reverse order
    let dn_str = name.to_text();
    assert!(dn_str.starts_with("C=US"));
}

#[test]
fn test_general_name_dns() {
    let gn = GeneralName::DnsName("example.com".to_string());
    assert_eq!(gn.to_text(), "DNS:example.com");
}

#[test]
fn test_general_name_email() {
    let gn = GeneralName::Rfc822Name("user@example.com".to_string());
    assert_eq!(gn.to_text(), "email:user@example.com");
}

#[test]
fn test_general_name_ip() {
    let gn = GeneralName::IpAddress(vec![192, 168, 1, 1]);
    assert_eq!(gn.ip_address_string().unwrap(), "192.168.1.1");
    assert_eq!(gn.to_text(), "IP:192.168.1.1");
}

#[test]
fn test_subject_alt_name() {
    let san = SubjectAltName::new(vec![
        GeneralName::DnsName("example.com".to_string()),
        GeneralName::DnsName("www.example.com".to_string()),
        GeneralName::Rfc822Name("admin@example.com".to_string()),
        GeneralName::IpAddress(vec![192, 168, 1, 1]),
    ]);

    let dns_names = san.dns_names();
    assert_eq!(dns_names.len(), 2);
    assert!(dns_names.contains(&"example.com".to_string()));
    assert!(dns_names.contains(&"www.example.com".to_string()));

    let emails = san.email_addresses();
    assert_eq!(emails.len(), 1);
    assert_eq!(emails[0], "admin@example.com");

    let ips = san.ip_addresses();
    assert_eq!(ips.len(), 1);
    assert_eq!(ips[0], &[192, 168, 1, 1]);
}

#[test]
fn test_common_oids() {
    assert_eq!(common_name().to_text(), "2.5.4.3");
    assert_eq!(organization_name().to_text(), "2.5.4.10");
    assert_eq!(country_name().to_text(), "2.5.4.6");
    assert_eq!(domain_component().to_text(), "0.9.2342.19200300.100.1.25");
}

#[test]
fn test_encode_decode_rdn_sequence() {
    let mut name = RDNSequence::new();

    let cn = AttributeTypeAndValue::new_utf8(common_name(), "Test User").unwrap();
    name.push(RelativeDistinguishedName::new(cn).unwrap());

    let o = AttributeTypeAndValue::new_utf8(organization_name(), "Test Org").unwrap();
    name.push(RelativeDistinguishedName::new(o).unwrap());

    // Encode to DER
    let der = name.to_der().unwrap();

    // Decode from DER
    let decoded = RDNSequence::from_der(&der).unwrap();

    assert_eq!(name, decoded);
    assert_eq!(decoded.common_name().unwrap(), "Test User");
    assert_eq!(decoded.organization().unwrap(), "Test Org");
}

fn utf8(oid: Oid, s: &str) -> AttributeTypeAndValue {
    AttributeTypeAndValue { oid, value: AnyValue { tag: 0x0c, value: s.as_bytes().to_vec() } }
}

#[test]
fn name_encodes_and_reads_back() {
    let mut name = RDNSequence::default();
    name.push(RelativeDistinguishedName { attributes: vec![utf8(common_name(), "Test User")] });
    name.push(RelativeDistinguishedName { attributes: vec![utf8(organization_name(), "Test Org")] });
    let der = name.encode().unwrap();
    assert_eq!(der[0], 0x30);
    let (decoded, end) = RDNSequence::read(&der, 0, der.len()).unwrap();
    assert_eq!(end, der.len());
    assert!(decoded.same(&name));
    assert_eq!(decoded.find_attr(&organization_name()).unwrap().value.value, b"Test Org".to_vec());
    assert!(decoded.find_attr(&country_name()).is_none());
    assert_eq!(decoded.to_text(), "O=Test Org, CN=Test User");
    let mut trailing = der.clone();
    trailing.push(0);
    assert_eq!(RDNSequence::from_der(&trailing), Err(Error::Asn1(Asn1Error::Malformed)));
}

#[test]
fn multi_valued_rdn_is_read_in_der_order() {
    let rdn = RelativeDistinguishedName {
        attributes: vec![utf8(organization_name(), "B"), utf8(common_name(), "A")],
    };
    let der = rdn.encode().unwrap();
    let (back, _) = RelativeDistinguishedName::read(&der, 0, der.len()).unwrap();
    // Reading puts the members of a SET in DER order.
    assert_eq!(back.attributes[0].oid, common_name());
    assert_eq!(back.attributes[1].oid, organization_name());
}

#[test]
fn rdn_from_attributes_sorts_and_refuses_duplicates() {
    let rdn = RelativeDistinguishedName::from_attributes(vec![utf8(organization_name(), "B"), utf8(common_name(), "A")])
        .unwrap();
    assert!(rdn.is_multi_valued());
    assert_eq!(rdn.first().unwrap().oid, common_name());
    assert_eq!(rdn.to_text(), "CN=A+O=B");
    assert_eq!(
        RelativeDistinguishedName::from_attributes(vec![utf8(common_name(), "A"), utf8(common_name(), "A")]),
        Err(Error::Asn1(Asn1Error::InvalidValue))
    );
    assert!(RelativeDistinguishedName { attributes: vec![] }.first().is_none());
}

#[test]
fn directory_string_kinds() {
    let bmp = DirectoryString::BmpString(vec![0x00, 0x48, 0x00, 0x69]);
    assert_eq!(bmp.as_str().unwrap(), "Hi");
    assert_eq!(DirectoryString::BmpString(vec![0x00]).as_str(), Err(Error::Asn1(Asn1Error::Malformed)));
    assert_eq!(DirectoryString::BmpString(vec![0xD8, 0x00]).as_str(), Err(Error::Asn1(Asn1Error::InvalidValue)));
    let pair = DirectoryString::BmpString(vec![0x00, 0x41, 0xD8, 0x3D, 0xDE, 0x00, 0xE0, 0x00]);
    assert_eq!(pair.as_str().unwrap(), "A\u{1F600}\u{E000}");
    assert_eq!(DirectoryString::BmpString(vec![0xDE, 0x00, 0x00, 0x41]).as_str(), Err(Error::Asn1(Asn1Error::InvalidValue)));
    assert_eq!(DirectoryString::BmpString(vec![0xD8, 0x3D, 0x00, 0x41]).as_str(), Err(Error::Asn1(Asn1Error::InvalidValue)));
    let universal = DirectoryString::UniversalString(vec![0, 0, 0, 0x41, 0, 1, 0xF6, 0x00]);
    assert_eq!(universal.as_str().unwrap(), "A\u{1F600}");
    assert_eq!(
        DirectoryString::UniversalString(vec![0, 0x11, 0, 0]).as_str(),
        Err(Error::Asn1(Asn1Error::InvalidValue))
    );
    assert_eq!(DirectoryString::UniversalString(vec![0, 0, 0]).as_str(), Err(Error::Asn1(Asn1Error::Malformed)));
    assert_eq!(DirectoryString::TeletexString(b"abc".to_vec()).as_str().unwrap(), "abc");
    assert_eq!(DirectoryString::TeletexString(vec![0x61, 0xFF]).as_str().unwrap(), "a\u{FFFD}");
    assert_eq!(DirectoryString::BmpString(vec![0x00]).to_text(), "<invalid encoding>");
    assert_eq!(DirectoryString::UniversalString(vec![0, 0, 0, 0x41]).tag(), 0x14);
}

#[test]
fn directory_string_decoding() {
    assert_eq!(
        DirectoryString::decode_value(0x13, b"Test Co.").unwrap(),
        DirectoryString::PrintableString("Test Co.".to_string())
    );
    assert_eq!(DirectoryString::decode_value(0x13, b"a@b"), Err(Error::Asn1(Asn1Error::InvalidValue)));
    assert_eq!(
        DirectoryString::decode_value(0x16, b"a@b").unwrap(),
        DirectoryString::Ia5String("a@b".to_string())
    );
    assert_eq!(DirectoryString::decode_value(0x16, &[0x80]), Err(Error::Asn1(Asn1Error::InvalidValue)));
    assert_eq!(DirectoryString::decode_value(0x0C, &[0xC3]), Err(Error::Asn1(Asn1Error::InvalidValue)));
    assert_eq!(DirectoryString::decode_value(0x04, b"x"), Err(Error::Asn1(Asn1Error::Malformed)));
    assert_eq!(DirectoryString::Utf8String("é".to_string()).value_bytes(), vec![0xC3, 0xA9]);
}

#[test]
fn attribute_values_and_names() {
    let printable = AttributeTypeAndValue::new_printable(country_name(), "US").unwrap();
    assert_eq!(printable.value.tag, 0x13);
    assert_eq!(printable.to_text(), "C=US");
    assert_eq!(
        AttributeTypeAndValue::new_printable(country_name(), "U_S"),
        Err(Error::Asn1(Asn1Error::InvalidValue))
    );
    let unlisted = utf8(Oid::from_bytes(&[0x2A, 0x03, 0x04]), "x");
    assert_eq!(unlisted.attr_name(), "OID");
    assert_eq!(unlisted.to_text(), "1.2.3.4=x");
    let empty = AttributeTypeAndValue { oid: common_name(), value: AnyValue { tag: 0x0c, value: vec![] } };
    assert_eq!(empty.value_as_str(), Err(Error::Asn1(Asn1Error::Malformed)));
    assert_eq!(empty.to_text(), "CN=<error>");
    let bad = AttributeTypeAndValue { oid: domain_component(), value: AnyValue { tag: 0x16, value: vec![0xFF] } };
    assert_eq!(bad.directory_string(), Err(Error::Asn1(Asn1Error::InvalidValue)));
    assert_eq!(bad.to_text(), "DC=<error>");
}

#[test]
fn general_names_text_and_ipv6() {
    let v6 = GeneralName::IpAddress(vec![0x20, 0x01, 0x0d, 0xb8, 0, 0, 0, 0, 0, 0, 0, 0, 0, 0, 0, 1]);
    assert_eq!(v6.ip_address_string().unwrap(), "201:db8:00:00:00:00:00:01");
    assert_eq!(GeneralName::IpAddress(vec![1, 2, 3]).to_text(), "IP:<invalid>");
    assert!(GeneralName::DnsName("x".to_string()).ip_address_string().is_none());
    assert_eq!(GeneralName::Uri("https://example.com".to_string()).to_text(), "URI:https://example.com");
    assert_eq!(GeneralName::OtherName(vec![]).to_text(), "otherName:<unsupported>");
    assert_eq!(GeneralName::RegisteredId(common_name()).to_text(), "RegID:2.5.4.3");
    let mut name = RDNSequence::new();
    name.push(RelativeDistinguishedName::new(AttributeTypeAndValue::new_utf8(common_name(), "Dir").unwrap()).unwrap());
    assert_eq!(GeneralName::DirectoryName(name).to_text(), "DirName:CN=Dir");
}

#[test]
fn subject_alt_name_der_round_trip() {
    let mut dir = RDNSequence::new();
    dir.push(RelativeDistinguishedName::new(AttributeTypeAndValue::new_utf8(common_name(), "Dir").unwrap()).unwrap());
    let san = SubjectAltName::new(vec![
        GeneralName::DnsName("example.com".to_string()),
        GeneralName::Rfc822Name("a@example.com".to_string()),
        GeneralName::IpAddress(vec![10, 0, 0, 1]),
        GeneralName::Uri("urn:x".to_string()),
        GeneralName::DirectoryName(dir),
        GeneralName::RegisteredId(common_name()),
    ]);
    let der = san.encode().unwrap();
    assert_eq!(&der[2..15], &[0x82, 0x0b, b'e', b'x', b'a', b'm', b'p', b'l', b'e', b'.', b'c', b'o', b'm']);
    let back = SubjectAltName::from_der(&der).unwrap();
    assert_eq!(back, san);
    assert_eq!(back.uris(), vec!["urn:x".to_string()]);
    assert_eq!(
        back.to_text(),
        "DNS:example.com, email:a@example.com, IP:10.0.0.1, URI:urn:x, DirName:CN=Dir, RegID:2.5.4.3"
    );
}

#[test]
fn subject_alt_name_refusals() {
    // A universal tag where a general name is expected.
    assert_eq!(SubjectAltName::from_der(&[0x30, 0x03, 0x04, 0x01, 0x00]), Err(Error::Asn1(Asn1Error::Malformed)));
    // A DNS name that is not UTF-8.
    assert_eq!(SubjectAltName::from_der(&[0x30, 0x03, 0x82, 0x01, 0xFF]), Err(Error::Asn1(Asn1Error::InvalidValue)));
    // Content running past the sequence.
    assert_eq!(SubjectAltName::from_der(&[0x30, 0x03, 0x82, 0x05, 0x61]), Err(Error::Asn1(Asn1Error::Malformed)));
    // Tag number 9 is no general name.
    assert_eq!(SubjectAltName::from_der(&[0x30, 0x02, 0x89, 0x00]), Err(Error::Asn1(Asn1Error::Malformed)));
    assert_eq!(SubjectAltName::from_der(&[0x30, 0x00]).unwrap().names.len(), 0);
}
