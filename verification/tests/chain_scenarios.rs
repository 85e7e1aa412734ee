use spdm_x509::certificate::Certificate;
use spdm_x509::error::{ChainError, Error};
use spdm_x509::spdm::algorithm_verification::SpdmBaseHashAlgo;
use spdm_x509::spdm::chain::{
    compute_hash, get_cert_from_cert_chain, parse_spdm_cert_chain, validate_spdm_cert_chain, verify_cert_chain,
    SpdmCertChainHeader,
};
use spdm_x509::validator::{CertificateChain, ValidationOptions, Validator};

// The certificate files that these scenarios were first written against
// are not at hand; the chains below are P-256 certificates generated for
// them: a root CA, an intermediate CA (path length 0) that it issued, and
// a leaf the intermediate issued; a second intermediate and its leaf; all
// valid from 2020-01-01 to 2049-12-31.

const PL_ROOT: &[u8] = &[
    0x30, 0x82, 0x01, 0x4f, 0x30, 0x81, 0xf6, 0xa0, 0x03, 0x02, 0x01, 0x02, 0x02, 0x01, 0x51, 0x30,
    0x0a, 0x06, 0x08, 0x2a, 0x86, 0x48, 0xce, 0x3d, 0x04, 0x03, 0x02, 0x30, 0x1f, 0x31, 0x0b, 0x30,
    0x09, 0x06, 0x03, 0x55, 0x04, 0x06, 0x13, 0x02, 0x55, 0x53, 0x31, 0x10, 0x30, 0x0e, 0x06, 0x03,
    0x55, 0x04, 0x03, 0x0c, 0x07, 0x50, 0x4c, 0x20, 0x52, 0x6f, 0x6f, 0x74, 0x30, 0x1e, 0x17, 0x0d,
    0x32, 0x30, 0x30, 0x31, 0x30, 0x31, 0x30, 0x30, 0x30, 0x30, 0x30, 0x30, 0x5a, 0x17, 0x0d, 0x34,
    0x39, 0x31, 0x32, 0x33, 0x31, 0x32, 0x33, 0x35, 0x39, 0x35, 0x39, 0x5a, 0x30, 0x1f, 0x31, 0x0b,
    0x30, 0x09, 0x06, 0x03, 0x55, 0x04, 0x06, 0x13, 0x02, 0x55, 0x53, 0x31, 0x10, 0x30, 0x0e, 0x06,
    0x03, 0x55, 0x04, 0x03, 0x0c, 0x07, 0x50, 0x4c, 0x20, 0x52, 0x6f, 0x6f, 0x74, 0x30, 0x59, 0x30,
    0x13, 0x06, 0x07, 0x2a, 0x86, 0x48, 0xce, 0x3d, 0x02, 0x01, 0x06, 0x08, 0x2a, 0x86, 0x48, 0xce,
    0x3d, 0x03, 0x01, 0x07, 0x03, 0x42, 0x00, 0x04, 0x5f, 0x7a, 0x12, 0x61, 0x26, 0x11, 0xbb, 0xa4,
    0xae, 0xe2, 0x6e, 0x3e, 0x54, 0xc8, 0x99, 0xb1, 0x0e, 0xc0, 0x76, 0xd5, 0xad, 0xa4, 0xac, 0x1f,
    0x94, 0x95, 0x89, 0xad, 0xf3, 0x32, 0xd0, 0xb8, 0x81, 0xce, 0x8c, 0x29, 0x58, 0xac, 0x7b, 0xe6,
    0xf4, 0x28, 0x16, 0x72, 0x16, 0x0d, 0x0e, 0xe9, 0xa4, 0xbc, 0x6f, 0xae, 0xec, 0xd2, 0x46, 0x4e,
    0xa1, 0x19, 0x9a, 0x44, 0x72, 0x80, 0xa0, 0x6a, 0xa3, 0x23, 0x30, 0x21, 0x30, 0x0f, 0x06, 0x03,
    0x55, 0x1d, 0x13, 0x01, 0x01, 0xff, 0x04, 0x05, 0x30, 0x03, 0x01, 0x01, 0xff, 0x30, 0x0e, 0x06,
    0x03, 0x55, 0x1d, 0x0f, 0x01, 0x01, 0xff, 0x04, 0x04, 0x03, 0x02, 0x01, 0x06, 0x30, 0x0a, 0x06,
    0x08, 0x2a, 0x86, 0x48, 0xce, 0x3d, 0x04, 0x03, 0x02, 0x03, 0x48, 0x00, 0x30, 0x45, 0x02, 0x21,
    0x00, 0xc6, 0x22, 0x77, 0xbd, 0x4b, 0x47, 0xe2, 0x1f, 0x05, 0x36, 0x16, 0x5f, 0xf1, 0x22, 0xc9,
    0x90, 0x30, 0x71, 0x11, 0x45, 0x58, 0x3c, 0x28, 0x9d, 0x9e, 0x64, 0xd6, 0xc3, 0x92, 0x99, 0x2b,
    0xce, 0x02, 0x20, 0x37, 0x54, 0xc5, 0xfb, 0x82, 0x76, 0x8d, 0x81, 0xd0, 0xaa, 0x1f, 0xb2, 0xd8,
    0xeb, 0x9d, 0xfe, 0xd0, 0x89, 0x99, 0xba, 0x04, 0x8c, 0x97, 0x19, 0xe7, 0x27, 0xb9, 0x9d, 0xb8,
    0xb9, 0x10, 0x52,
];

const PL_INTER: &[u8] = &[
    0x30, 0x82, 0x01, 0x54, 0x30, 0x81, 0xfa, 0xa0, 0x03, 0x02, 0x01, 0x02, 0x02, 0x01, 0x52, 0x30,
    0x0a, 0x06, 0x08, 0x2a, 0x86, 0x48, 0xce, 0x3d, 0x04, 0x03, 0x02, 0x30, 0x1f, 0x31, 0x0b, 0x30,
    0x09, 0x06, 0x03, 0x55, 0x04, 0x06, 0x13, 0x02, 0x55, 0x53, 0x31, 0x10, 0x30, 0x0e, 0x06, 0x03,
    0x55, 0x04, 0x03, 0x0c, 0x07, 0x50, 0x4c, 0x20, 0x52, 0x6f, 0x6f, 0x74, 0x30, 0x1e, 0x17, 0x0d,
    0x32, 0x30, 0x30, 0x31, 0x30, 0x31, 0x30, 0x30, 0x30, 0x30, 0x30, 0x30, 0x5a, 0x17, 0x0d, 0x34,
    0x39, 0x31, 0x32, 0x33, 0x31, 0x32, 0x33, 0x35, 0x39, 0x35, 0x39, 0x5a, 0x30, 0x20, 0x31, 0x0b,
    0x30, 0x09, 0x06, 0x03, 0x55, 0x04, 0x06, 0x13, 0x02, 0x55, 0x53, 0x31, 0x11, 0x30, 0x0f, 0x06,
    0x03, 0x55, 0x04, 0x03, 0x0c, 0x08, 0x50, 0x4c, 0x20, 0x49, 0x6e, 0x74, 0x65, 0x72, 0x30, 0x59,
    0x30, 0x13, 0x06, 0x07, 0x2a, 0x86, 0x48, 0xce, 0x3d, 0x02, 0x01, 0x06, 0x08, 0x2a, 0x86, 0x48,
    0xce, 0x3d, 0x03, 0x01, 0x07, 0x03, 0x42, 0x00, 0x04, 0xd1, 0xfb, 0xf1, 0xda, 0xef, 0x32, 0x3d,
    0x7d, 0x8f, 0xca, 0x35, 0x55, 0xe6, 0x06, 0x5f, 0x71, 0x36, 0x1c, 0x47, 0x01, 0xb0, 0x83, 0xb6,
    0xe0, 0xb4, 0xef, 0xc3, 0x4d, 0xe7, 0x54, 0x7d, 0xb5, 0x80, 0xcf, 0xeb, 0x47, 0x57, 0xdd, 0x5f,
    0xfa, 0x19, 0xd9, 0x85, 0x57, 0x21, 0xaa, 0x96, 0x7d, 0xae, 0x22, 0xe9, 0xbc, 0xe5, 0x23, 0x11,
    0x1c, 0x8d, 0xc3, 0x2e, 0xa5, 0x6d, 0x9c, 0xdb, 0x26, 0xa3, 0x26, 0x30, 0x24, 0x30, 0x12, 0x06,
    0x03, 0x55, 0x1d, 0x13, 0x01, 0x01, 0xff, 0x04, 0x08, 0x30, 0x06, 0x01, 0x01, 0xff, 0x02, 0x01,
    0x00, 0x30, 0x0e, 0x06, 0x03, 0x55, 0x1d, 0x0f, 0x01, 0x01, 0xff, 0x04, 0x04, 0x03, 0x02, 0x01,
    0x06, 0x30, 0x0a, 0x06, 0x08, 0x2a, 0x86, 0x48, 0xce, 0x3d, 0x04, 0x03, 0x02, 0x03, 0x49, 0x00,
    0x30, 0x46, 0x02, 0x21, 0x00, 0x8c, 0x7c, 0xff, 0xd3, 0x2a, 0x9d, 0xe2, 0x6d, 0x01, 0x09, 0xe9,
    0xab, 0x4f, 0x35, 0x92, 0xe1, 0xdc, 0x25, 0xf7, 0x09, 0x88, 0x81, 0x9c, 0x85, 0x83, 0xed, 0x11,
    0xbf, 0x8e, 0x37, 0xd0, 0x7f, 0x02, 0x21, 0x00, 0x8a, 0x35, 0x6e, 0xac, 0xa9, 0x99, 0x0a, 0x78,
    0x4f, 0xdd, 0xb2, 0x0a, 0x60, 0xed, 0x21, 0x77, 0x10, 0x60, 0x37, 0x9c, 0xbf, 0x5d, 0xe6, 0x6a,
    0xbe, 0xe0, 0x38, 0x76, 0xbf, 0xe7, 0xb8, 0x8c,
];

const PL_LEAF: &[u8] = &[
    0x30, 0x82, 0x01, 0x3c, 0x30, 0x81, 0xe4, 0xa0, 0x03, 0x02, 0x01, 0x02, 0x02, 0x01, 0x53, 0x30,
    0x0a, 0x06, 0x08, 0x2a, 0x86, 0x48, 0xce, 0x3d, 0x04, 0x03, 0x02, 0x30, 0x20, 0x31, 0x0b, 0x30,
    0x09, 0x06, 0x03, 0x55, 0x04, 0x06, 0x13, 0x02, 0x55, 0x53, 0x31, 0x11, 0x30, 0x0f, 0x06, 0x03,
    0x55, 0x04, 0x03, 0x0c, 0x08, 0x50, 0x4c, 0x20, 0x49, 0x6e, 0x74, 0x65, 0x72, 0x30, 0x1e, 0x17,
    0x0d, 0x32, 0x30, 0x30, 0x31, 0x30, 0x31, 0x30, 0x30, 0x30, 0x30, 0x30, 0x30, 0x5a, 0x17, 0x0d,
    0x34, 0x39, 0x31, 0x32, 0x33, 0x31, 0x32, 0x33, 0x35, 0x39, 0x35, 0x39, 0x5a, 0x30, 0x1f, 0x31,
    0x0b, 0x30, 0x09, 0x06, 0x03, 0x55, 0x04, 0x06, 0x13, 0x02, 0x55, 0x53, 0x31, 0x10, 0x30, 0x0e,
    0x06, 0x03, 0x55, 0x04, 0x03, 0x0c, 0x07, 0x50, 0x4c, 0x20, 0x4c, 0x65, 0x61, 0x66, 0x30, 0x59,
    0x30, 0x13, 0x06, 0x07, 0x2a, 0x86, 0x48, 0xce, 0x3d, 0x02, 0x01, 0x06, 0x08, 0x2a, 0x86, 0x48,
    0xce, 0x3d, 0x03, 0x01, 0x07, 0x03, 0x42, 0x00, 0x04, 0xf0, 0xfa, 0xdf, 0x49, 0xea, 0xc5, 0x70,
    0xfb, 0x3c, 0xde, 0x25, 0x30, 0xce, 0xfc, 0x56, 0x22, 0x73, 0x3d, 0x25, 0xce, 0x24, 0xd5, 0x5f,
    0x74, 0xaa, 0x3f, 0x76, 0x50, 0x27, 0x38, 0xa4, 0x2f, 0xc3, 0x81, 0xd7, 0xe5, 0xe7, 0xd7, 0x7a,
    0xfb, 0xec, 0xa1, 0xc0, 0x75, 0x18, 0xba, 0x75, 0x1f, 0xe9, 0x9c, 0xb5, 0x9e, 0x8a, 0x83, 0x8f,
    0x10, 0x45, 0xc8, 0x0a, 0x28, 0xce, 0x69, 0x4b, 0x46, 0xa3, 0x10, 0x30, 0x0e, 0x30, 0x0c, 0x06,
    0x03, 0x55, 0x1d, 0x13, 0x01, 0x01, 0xff, 0x04, 0x02, 0x30, 0x00, 0x30, 0x0a, 0x06, 0x08, 0x2a,
    0x86, 0x48, 0xce, 0x3d, 0x04, 0x03, 0x02, 0x03, 0x47, 0x00, 0x30, 0x44, 0x02, 0x20, 0x42, 0xf3,
    0x30, 0x57, 0x43, 0xc9, 0xcb, 0x9b, 0x63, 0xe5, 0x73, 0xbd, 0x61, 0x3e, 0x82, 0xde, 0x5b, 0x55,
    0x28, 0x10, 0xf9, 0x51, 0x84, 0x5d, 0x56, 0x8d, 0x43, 0x71, 0xb6, 0xb6, 0x03, 0x14, 0x02, 0x20,
    0x5a, 0x35, 0x85, 0x68, 0x03, 0x97, 0xd5, 0x1f, 0x83, 0x33, 0x7c, 0x04, 0x60, 0x38, 0xfd, 0xe8,
    0x01, 0xe8, 0x14, 0x30, 0xd9, 0xc4, 0xb7, 0x7a, 0xb8, 0x83, 0x2a, 0x40, 0x12, 0x36, 0x9b, 0xa5,
];

const PL_INTER_TWO: &[u8] = &[
    0x30, 0x82, 0x01, 0x55, 0x30, 0x81, 0xfc, 0xa0, 0x03, 0x02, 0x01, 0x02, 0x02, 0x01, 0x54, 0x30,
    0x0a, 0x06, 0x08, 0x2a, 0x86, 0x48, 0xce, 0x3d, 0x04, 0x03, 0x02, 0x30, 0x20, 0x31, 0x0b, 0x30,
    0x09, 0x06, 0x03, 0x55, 0x04, 0x06, 0x13, 0x02, 0x55, 0x53, 0x31, 0x11, 0x30, 0x0f, 0x06, 0x03,
    0x55, 0x04, 0x03, 0x0c, 0x08, 0x50, 0x4c, 0x20, 0x49, 0x6e, 0x74, 0x65, 0x72, 0x30, 0x1e, 0x17,
    0x0d, 0x32, 0x30, 0x30, 0x31, 0x30, 0x31, 0x30, 0x30, 0x30, 0x30, 0x30, 0x30, 0x5a, 0x17, 0x0d,
    0x34, 0x39, 0x31, 0x32, 0x33, 0x31, 0x32, 0x33, 0x35, 0x39, 0x35, 0x39, 0x5a, 0x30, 0x24, 0x31,
    0x0b, 0x30, 0x09, 0x06, 0x03, 0x55, 0x04, 0x06, 0x13, 0x02, 0x55, 0x53, 0x31, 0x15, 0x30, 0x13,
    0x06, 0x03, 0x55, 0x04, 0x03, 0x0c, 0x0c, 0x50, 0x4c, 0x20, 0x49, 0x6e, 0x74, 0x65, 0x72, 0x20,
    0x54, 0x77, 0x6f, 0x30, 0x59, 0x30, 0x13, 0x06, 0x07, 0x2a, 0x86, 0x48, 0xce, 0x3d, 0x02, 0x01,
    0x06, 0x08, 0x2a, 0x86, 0x48, 0xce, 0x3d, 0x03, 0x01, 0x07, 0x03, 0x42, 0x00, 0x04, 0x4b, 0x7c,
    0x15, 0x8f, 0x05, 0x37, 0x0c, 0x3f, 0x2c, 0x3a, 0xcf, 0x95, 0xe2, 0x39, 0xcc, 0x0f, 0xfb, 0x83,
    0x23, 0xf2, 0x8d, 0xe0, 0x7b, 0x8a, 0xfe, 0x93, 0xc4, 0xbf, 0xe8, 0xc4, 0x93, 0x79, 0xbf, 0xf6,
    0x12, 0x8c, 0x1d, 0xce, 0x24, 0xf1, 0x27, 0x9f, 0x7a, 0xb0, 0x33, 0xb4, 0x31, 0x9c, 0x31, 0xd2,
    0x4a, 0x7e, 0x82, 0xec, 0xf7, 0xdf, 0x12, 0x46, 0x65, 0xc9, 0x3e, 0xe7, 0x2c, 0xf5, 0xa3, 0x23,
    0x30, 0x21, 0x30, 0x0f, 0x06, 0x03, 0x55, 0x1d, 0x13, 0x01, 0x01, 0xff, 0x04, 0x05, 0x30, 0x03,
    0x01, 0x01, 0xff, 0x30, 0x0e, 0x06, 0x03, 0x55, 0x1d, 0x0f, 0x01, 0x01, 0xff, 0x04, 0x04, 0x03,
    0x02, 0x01, 0x06, 0x30, 0x0a, 0x06, 0x08, 0x2a, 0x86, 0x48, 0xce, 0x3d, 0x04, 0x03, 0x02, 0x03,
    0x48, 0x00, 0x30, 0x45, 0x02, 0x20, 0x24, 0x84, 0x45, 0xc0, 0xb3, 0xfe, 0x66, 0x6d, 0x1e, 0xaf,
    0xe2, 0xc6, 0x69, 0xf9, 0x75, 0x45, 0xc3, 0x3e, 0x92, 0x5b, 0x62, 0xb4, 0xc8, 0x01, 0x47, 0xc6,
    0xed, 0x0f, 0xf2, 0x0b, 0xb7, 0x45, 0x02, 0x21, 0x00, 0xa4, 0x00, 0x1b, 0xf4, 0x56, 0x46, 0xf3,
    0x35, 0x9d, 0xd3, 0x4d, 0x56, 0x4e, 0x7e, 0x5e, 0x0b, 0x75, 0x2f, 0xef, 0x7a, 0xc8, 0x8a, 0x55,
    0x57, 0x7d, 0xe6, 0x45, 0x35, 0xf1, 0x4d, 0x0f, 0x33,
];

const PL_LEAF_TWO: &[u8] = &[
    0x30, 0x82, 0x01, 0x46, 0x30, 0x81, 0xec, 0xa0, 0x03, 0x02, 0x01, 0x02, 0x02, 0x01, 0x55, 0x30,
    0x0a, 0x06, 0x08, 0x2a, 0x86, 0x48, 0xce, 0x3d, 0x04, 0x03, 0x02, 0x30, 0x24, 0x31, 0x0b, 0x30,
    0x09, 0x06, 0x03, 0x55, 0x04, 0x06, 0x13, 0x02, 0x55, 0x53, 0x31, 0x15, 0x30, 0x13, 0x06, 0x03,
    0x55, 0x04, 0x03, 0x0c, 0x0c, 0x50, 0x4c, 0x20, 0x49, 0x6e, 0x74, 0x65, 0x72, 0x20, 0x54, 0x77,
    0x6f, 0x30, 0x1e, 0x17, 0x0d, 0x32, 0x30, 0x30, 0x31, 0x30, 0x31, 0x30, 0x30, 0x30, 0x30, 0x30,
    0x30, 0x5a, 0x17, 0x0d, 0x34, 0x39, 0x31, 0x32, 0x33, 0x31, 0x32, 0x33, 0x35, 0x39, 0x35, 0x39,
    0x5a, 0x30, 0x23, 0x31, 0x0b, 0x30, 0x09, 0x06, 0x03, 0x55, 0x04, 0x06, 0x13, 0x02, 0x55, 0x53,
    0x31, 0x14, 0x30, 0x12, 0x06, 0x03, 0x55, 0x04, 0x03, 0x0c, 0x0b, 0x50, 0x4c, 0x20, 0x4c, 0x65,
    0x61, 0x66, 0x20, 0x54, 0x77, 0x6f, 0x30, 0x59, 0x30, 0x13, 0x06, 0x07, 0x2a, 0x86, 0x48, 0xce,
    0x3d, 0x02, 0x01, 0x06, 0x08, 0x2a, 0x86, 0x48, 0xce, 0x3d, 0x03, 0x01, 0x07, 0x03, 0x42, 0x00,
    0x04, 0xf0, 0xfa, 0xdf, 0x49, 0xea, 0xc5, 0x70, 0xfb, 0x3c, 0xde, 0x25, 0x30, 0xce, 0xfc, 0x56,
    0x22, 0x73, 0x3d, 0x25, 0xce, 0x24, 0xd5, 0x5f, 0x74, 0xaa, 0x3f, 0x76, 0x50, 0x27, 0x38, 0xa4,
    0x2f, 0xc3, 0x81, 0xd7, 0xe5, 0xe7, 0xd7, 0x7a, 0xfb, 0xec, 0xa1, 0xc0, 0x75, 0x18, 0xba, 0x75,
    0x1f, 0xe9, 0x9c, 0xb5, 0x9e, 0x8a, 0x83, 0x8f, 0x10, 0x45, 0xc8, 0x0a, 0x28, 0xce, 0x69, 0x4b,
    0x46, 0xa3, 0x10, 0x30, 0x0e, 0x30, 0x0c, 0x06, 0x03, 0x55, 0x1d, 0x13, 0x01, 0x01, 0xff, 0x04,
    0x02, 0x30, 0x00, 0x30, 0x0a, 0x06, 0x08, 0x2a, 0x86, 0x48, 0xce, 0x3d, 0x04, 0x03, 0x02, 0x03,
    0x49, 0x00, 0x30, 0x46, 0x02, 0x21, 0x00, 0xe2, 0xd8, 0x99, 0x56, 0xa0, 0xbf, 0xe6, 0xc1, 0x3f,
    0xa3, 0x80, 0xc1, 0x1c, 0x31, 0x78, 0x48, 0x7b, 0x6b, 0x52, 0x6b, 0xf7, 0xb7, 0x84, 0x03, 0x52,
    0x1a, 0xef, 0xdb, 0x2b, 0x3c, 0x3a, 0x79, 0x02, 0x21, 0x00, 0xcf, 0x2a, 0x1e, 0x63, 0x28, 0xec,
    0xca, 0xfc, 0xfa, 0x0b, 0xc4, 0x3e, 0x06, 0xfb, 0x57, 0x62, 0xc7, 0xe6, 0x51, 0x8a, 0x33, 0xfa,
    0x6c, 0xc3, 0x4b, 0xcd, 0x09, 0x4f, 0xde, 0x30, 0x97, 0xa4,
];

fn load_cert(der: &[u8]) -> Certificate {
    Certificate::from_der(der).unwrap()
}

fn opts() -> ValidationOptions {
    ValidationOptions::default().skip_time_validation()
}

fn create_simple_chain() -> Vec<u8> {
    let mut chain = Vec::new();
    chain.extend_from_slice(PL_LEAF);
    chain.extend_from_slice(PL_LEAF);
    chain
}

fn build_spdm_chain(root: &[u8], inter: &[u8], leaf: &[u8]) -> Vec<u8> {
    let root_hash = compute_hash(root, SpdmBaseHashAlgo::Sha256).unwrap();
    let certs = [root, inter, leaf].concat();
    let total = (4 + 32 + certs.len()) as u16;
    let mut out = SpdmCertChainHeader::new(total, root_hash).to_bytes();
    out.extend_from_slice(&certs);
    out
}

#[test]
fn test_get_cert_from_cert_chain_first() {
    let chain = create_simple_chain();
    let (offset, end) = get_cert_from_cert_chain(&chain, 0).unwrap();
    assert_eq!(offset, 0);
    assert!(end > offset);
    assert!(Certificate::from_der(&chain[offset..end]).is_ok());
}

#[test]
fn test_get_cert_from_cert_chain_last() {
    let chain = create_simple_chain();
    let (offset, end) = get_cert_from_cert_chain(&chain, -1).unwrap();
    assert!(offset > 0);
    assert_eq!(end, chain.len());
    assert!(Certificate::from_der(&chain[offset..end]).is_ok());
}

#[test]
fn test_get_cert_from_cert_chain_second() {
    let chain = create_simple_chain();
    let (offset, end) = get_cert_from_cert_chain(&chain, 1).unwrap();
    assert!(offset > 0);
    assert!(end > offset);
    assert!(Certificate::from_der(&chain[offset..end]).is_ok());
}

#[test]
fn test_get_cert_from_cert_chain_invalid_index() {
    let chain = create_simple_chain();
    assert!(get_cert_from_cert_chain(&chain, 100).is_err());
}

#[test]
fn test_get_cert_from_cert_chain_empty() {
    let empty_chain: Vec<u8> = vec![];
    assert!(get_cert_from_cert_chain(&empty_chain, 0).is_err());
}

#[test]
fn test_verify_cert_chain_empty() {
    let empty_chain: Vec<u8> = vec![];
    let err = verify_cert_chain(&empty_chain).unwrap_err();
    let err_str = format!("{:?}", err);
    assert!(err_str.contains("Empty") || err_str.contains("empty"));
}

#[test]
fn chain_ecp256_intermediate_under_ca() {
    let chain = CertificateChain::new(vec![load_cert(PL_INTER), load_cert(PL_ROOT)]);
    assert!(Validator::new().validate_chain(&chain, &opts()).is_ok());
}

#[test]
fn chain_self_signed_root_only_ecp256() {
    let chain = CertificateChain::new(vec![load_cert(PL_ROOT)]);
    assert!(Validator::new().validate_chain(&chain, &opts()).is_ok());
}

#[test]
fn chain_wrong_order_root_first_fails() {
    let chain = CertificateChain::new(vec![load_cert(PL_ROOT), load_cert(PL_INTER), load_cert(PL_LEAF)]);
    assert!(Validator::new().validate_chain(&chain, &opts()).is_err());
}

#[test]
fn chain_cross_algorithm_fails() {
    // A leaf under another intermediate than the one given.
    let chain = CertificateChain::new(vec![load_cert(PL_LEAF_TWO), load_cert(PL_INTER), load_cert(PL_ROOT)]);
    assert!(Validator::new().validate_chain(&chain, &opts()).is_err());
}

#[test]
fn chain_leaf_only_without_self_signature_fails() {
    let chain = CertificateChain::new(vec![load_cert(PL_LEAF)]);
    assert!(Validator::new().validate_chain(&chain, &opts()).is_err());
}

#[test]
fn chain_missing_intermediate_fails() {
    let chain = CertificateChain::new(vec![load_cert(PL_LEAF), load_cert(PL_ROOT)]);
    assert_eq!(
        Validator::new().validate_chain(&chain, &opts()),
        Err(Error::ChainError(ChainError::IssuerMismatch))
    );
}

#[test]
fn parse_spdm_cert_chain_empty_fails() {
    assert!(parse_spdm_cert_chain(&[], 0x01).is_err());
}

#[test]
fn parse_spdm_cert_chain_no_algo_fails() {
    let data = vec![0u8; 64];
    assert!(parse_spdm_cert_chain(&data, 0).is_err());
}

#[test]
fn parse_spdm_cert_chain_multiple_algos_fails() {
    let data = vec![0u8; 64];
    assert!(parse_spdm_cert_chain(&data, 0x03).is_err());
}

#[test]
fn parse_spdm_cert_chain_truncated_header_fails() {
    let data = vec![0u8; 3];
    assert!(parse_spdm_cert_chain(&data, 0x01).is_err());
}

#[test]
fn parse_and_validate_spdm_chain_ecp256_sha256() {
    let chain_bytes = build_spdm_chain(PL_ROOT, PL_INTER, PL_LEAF);
    let (header, certs) = parse_spdm_cert_chain(&chain_bytes, 0x01).unwrap();
    assert_eq!(header.root_hash.len(), 32);
    assert_eq!(certs.len(), 3);
    let opts = ValidationOptions::default().skip_time_validation();
    validate_spdm_cert_chain(&header, &certs, 0x01, &opts).unwrap();
}

#[test]
fn parse_spdm_chain_wrong_root_hash_fails() {
    let mut chain_bytes = build_spdm_chain(PL_ROOT, PL_INTER, PL_LEAF);
    for b in &mut chain_bytes[4..36] {
        *b ^= 0xFF;
    }
    let (header, certs) = parse_spdm_cert_chain(&chain_bytes, 0x01).unwrap();
    let opts = ValidationOptions::default().skip_time_validation();
    assert!(validate_spdm_cert_chain(&header, &certs, 0x01, &opts).is_err());
}

#[test]
fn web_certs_round_trip() {
    for der in [PL_ROOT, PL_INTER, PL_LEAF, PL_INTER_TWO, PL_LEAF_TWO] {
        let cert = Certificate::from_der(der).unwrap();
        let encoded = cert.to_der().unwrap();
        let reparsed = Certificate::from_der(&encoded).unwrap();
        assert_eq!(reparsed.to_der().unwrap(), encoded);
        assert_eq!(encoded, der.to_vec());
    }
}

#[test]
fn test_verify_cert_chain_single() {
    match verify_cert_chain(PL_ROOT) {
        Ok(_) => {},
        Err(e) => {
            let err_str = format!("{:?}", e);
            assert!(!err_str.contains("Parse") && !err_str.contains("InvalidDer"), "parse error: {:?}", e);
        },
    }
}

#[test]
fn test_verify_cert_chain_multiple() {
    let chain = create_simple_chain();
    match verify_cert_chain(&chain) {
        Ok(_) => {},
        Err(e) => {
            let err_str = format!("{:?}", e);
            assert!(!err_str.contains("Parse") && !err_str.contains("InvalidDer"), "parse error: {:?}", e);
        },
    }
}
