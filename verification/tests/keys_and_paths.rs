use spdm_x509::algorithms::SignatureAlgorithm;
use spdm_x509::certificate::{Certificate, Extension};
use spdm_x509::error::{ChainError, Error};
use spdm_x509::spdm::algorithm_verification::{
    estimate_rsa_key_size, rsa_scan, verify_rsa_key_size, verify_signature, SpdmBaseAsymAlgo, SpdmBaseHashAlgo,
};
use spdm_x509::validator::{CertificateChain, ValidationOptions, Validator};

// Fixtures: a P-256 root CA, an intermediate CA with path length 0 that it
// issued, a leaf the intermediate issued, a second intermediate (no path
// length) issued by the first and a leaf it issued; a P-384 key with a
// signature of MESSAGE; the leaf's SubjectPublicKeyInfo with a signature of
// MESSAGE; RSA public keys of 2040 and 3072 bits.

const PL_ROOT: &[u8] = &[
    0x30, 0x82, 0x01, 0x4f, 0x30, 0x81, 0xf6, 0xa0, 0x03, 0x02, 0x01, 0x02, 0x02, 0x01, 0x51, 0x30,
    0x0a, 0x06, 0x08, 0x2a, 0x86, 0x48, 0xce, 0x3d, 0x04, 0x03, 0x02, 0x30, 0x1f, 0x31, 0x0b, 0x30,
    0x09, 0x06, 0x03, 0x55, 0x04, 0x06, 0x13, 0x02, 0x55, 0x53, 0x31, 0x10, 0x30, 0x0e, 0x06, 0x03,
    0x55, 0x04, 0x03, 0x0c, 0x07, 0x50, 0x4c, 0x20, 0x52, 0x6f, 0x6f, 0x74, 0x30, 0x1e, 0x17, 0x0d,
    0x32, 0x30, 0x30, 0x31, 0x30, 0x31, 0x30, 0x30, 0x30, 0x30, 0x30, 0x30, 0x5a, 0x17, 0x0d, 0x34,
    0x39, 0x31, 0x32, 0x33, 0x31, 0x32, 0x33, 0x35, 0x39, 0x35, 0x39, 0x5a, 0x30, 0x1f, 0x31, 0x0b,
    0x30, 0x09, 0x06, 0x03, 0x55, 0x04, 0x06, 0x13, 0x02, 0x55, 0x53, 0x31, 0x10, 0x30, 0x0e, 0x06,
    0x03, 0x55, 0x04, 0x03, 0x0c, 0x07, 0x50, 0x4c, 0x20, 0x52, 0x6f, 0x6f, 0x74, 0x30, 0x59, 0x30,
    0x13, 0x06, 0x07, 0x2a, 0x86, 0x48, 0xce, 0x3d, 0x02, 0x01, 0x06, 0x08, 0x2a, 0x86, 0x48, 0xce,
    0x3d, 0x03, 0x01, 0x07, 0x03, 0x42, 0x00, 0x04, 0x5f, 0x7a, 0x12, 0x61, 0x26, 0x11, 0xbb, 0xa4,
    0xae, 0xe2, 0x6e, 0x3e, 0x54, 0xc8, 0x99, 0xb1, 0x0e, 0xc0, 0x76, 0xd5, 0xad, 0xa4, 0xac, 0x1f,
    0x94, 0x95, 0x89, 0xad, 0xf3, 0x32, 0xd0, 0xb8, 0x81, 0xce, 0x8c, 0x29, 0x58, 0xac, 0x7b, 0xe6,
    0xf4, 0x28, 0x16, 0x72, 0x16, 0x0d, 0x0e, 0xe9, 0xa4, 0xbc, 0x6f, 0xae, 0xec, 0xd2, 0x46, 0x4e,
    0xa1, 0x19, 0x9a, 0x44, 0x72, 0x80, 0xa0, 0x6a, 0xa3, 0x23, 0x30, 0x21, 0x30, 0x0f, 0x06, 0x03,
    0x55, 0x1d, 0x13, 0x01, 0x01, 0xff, 0x04, 0x05, 0x30, 0x03, 0x01, 0x01, 0xff, 0x30, 0x0e, 0x06,
    0x03, 0x55, 0x1d, 0x0f, 0x01, 0x01, 0xff, 0x04, 0x04, 0x03, 0x02, 0x01, 0x06, 0x30, 0x0a, 0x06,
    0x08, 0x2a, 0x86, 0x48, 0xce, 0x3d, 0x04, 0x03, 0x02, 0x03, 0x48, 0x00, 0x30, 0x45, 0x02, 0x21,
    0x00, 0xc6, 0x22, 0x77, 0xbd, 0x4b, 0x47, 0xe2, 0x1f, 0x05, 0x36, 0x16, 0x5f, 0xf1, 0x22, 0xc9,
    0x90, 0x30, 0x71, 0x11, 0x45, 0x58, 0x3c, 0x28, 0x9d, 0x9e, 0x64, 0xd6, 0xc3, 0x92, 0x99, 0x2b,
    0xce, 0x02, 0x20, 0x37, 0x54, 0xc5, 0xfb, 0x82, 0x76, 0x8d, 0x81, 0xd0, 0xaa, 0x1f, 0xb2, 0xd8,
    0xeb, 0x9d, 0xfe, 0xd0, 0x89, 0x99, 0xba, 0x04, 0x8c, 0x97, 0x19, 0xe7, 0x27, 0xb9, 0x9d, 0xb8,
    0xb9, 0x10, 0x52,
];

const PL_INTER: &[u8] = &[
    0x30, 0x82, 0x01, 0x54, 0x30, 0x81, 0xfa, 0xa0, 0x03, 0x02, 0x01, 0x02, 0x02, 0x01, 0x52, 0x30,
    0x0a, 0x06, 0x08, 0x2a, 0x86, 0x48, 0xce, 0x3d, 0x04, 0x03, 0x02, 0x30, 0x1f, 0x31, 0x0b, 0x30,
    0x09, 0x06, 0x03, 0x55, 0x04, 0x06, 0x13, 0x02, 0x55, 0x53, 0x31, 0x10, 0x30, 0x0e, 0x06, 0x03,
    0x55, 0x04, 0x03, 0x0c, 0x07, 0x50, 0x4c, 0x20, 0x52, 0x6f, 0x6f, 0x74, 0x30, 0x1e, 0x17, 0x0d,
    0x32, 0x30, 0x30, 0x31, 0x30, 0x31, 0x30, 0x30, 0x30, 0x30, 0x30, 0x30, 0x5a, 0x17, 0x0d, 0x34,
    0x39, 0x31, 0x32, 0x33, 0x31, 0x32, 0x33, 0x35, 0x39, 0x35, 0x39, 0x5a, 0x30, 0x20, 0x31, 0x0b,
    0x30, 0x09, 0x06, 0x03, 0x55, 0x04, 0x06, 0x13, 0x02, 0x55, 0x53, 0x31, 0x11, 0x30, 0x0f, 0x06,
    0x03, 0x55, 0x04, 0x03, 0x0c, 0x08, 0x50, 0x4c, 0x20, 0x49, 0x6e, 0x74, 0x65, 0x72, 0x30, 0x59,
    0x30, 0x13, 0x06, 0x07, 0x2a, 0x86, 0x48, 0xce, 0x3d, 0x02, 0x01, 0x06, 0x08, 0x2a, 0x86, 0x48,
    0xce, 0x3d, 0x03, 0x01, 0x07, 0x03, 0x42, 0x00, 0x04, 0xd1, 0xfb, 0xf1, 0xda, 0xef, 0x32, 0x3d,
    0x7d, 0x8f, 0xca, 0x35, 0x55, 0xe6, 0x06, 0x5f, 0x71, 0x36, 0x1c, 0x47, 0x01, 0xb0, 0x83, 0xb6,
    0xe0, 0xb4, 0xef, 0xc3, 0x4d, 0xe7, 0x54, 0x7d, 0xb5, 0x80, 0xcf, 0xeb, 0x47, 0x57, 0xdd, 0x5f,
    0xfa, 0x19, 0xd9, 0x85, 0x57, 0x21, 0xaa, 0x96, 0x7d, 0xae, 0x22, 0xe9, 0xbc, 0xe5, 0x23, 0x11,
    0x1c, 0x8d, 0xc3, 0x2e, 0xa5, 0x6d, 0x9c, 0xdb, 0x26, 0xa3, 0x26, 0x30, 0x24, 0x30, 0x12, 0x06,
    0x03, 0x55, 0x1d, 0x13, 0x01, 0x01, 0xff, 0x04, 0x08, 0x30, 0x06, 0x01, 0x01, 0xff, 0x02, 0x01,
    0x00, 0x30, 0x0e, 0x06, 0x03, 0x55, 0x1d, 0x0f, 0x01, 0x01, 0xff, 0x04, 0x04, 0x03, 0x02, 0x01,
    0x06, 0x30, 0x0a, 0x06, 0x08, 0x2a, 0x86, 0x48, 0xce, 0x3d, 0x04, 0x03, 0x02, 0x03, 0x49, 0x00,
    0x30, 0x46, 0x02, 0x21, 0x00, 0x8c, 0x7c, 0xff, 0xd3, 0x2a, 0x9d, 0xe2, 0x6d, 0x01, 0x09, 0xe9,
    0xab, 0x4f, 0x35, 0x92, 0xe1, 0xdc, 0x25, 0xf7, 0x09, 0x88, 0x81, 0x9c, 0x85, 0x83, 0xed, 0x11,
    0xbf, 0x8e, 0x37, 0xd0, 0x7f, 0x02, 0x21, 0x00, 0x8a, 0x35, 0x6e, 0xac, 0xa9, 0x99, 0x0a, 0x78,
    0x4f, 0xdd, 0xb2, 0x0a, 0x60, 0xed, 0x21, 0x77, 0x10, 0x60, 0x37, 0x9c, 0xbf, 0x5d, 0xe6, 0x6a,
    0xbe, 0xe0, 0x38, 0x76, 0xbf, 0xe7, 0xb8, 0x8c,
];

const PL_LEAF: &[u8] = &[
    0x30, 0x82, 0x01, 0x3c, 0x30, 0x81, 0xe4, 0xa0, 0x03, 0x02, 0x01, 0x02, 0x02, 0x01, 0x53, 0x30,
    0x0a, 0x06, 0x08, 0x2a, 0x86, 0x48, 0xce, 0x3d, 0x04, 0x03, 0x02, 0x30, 0x20, 0x31, 0x0b, 0x30,
    0x09, 0x06, 0x03, 0x55, 0x04, 0x06, 0x13, 0x02, 0x55, 0x53, 0x31, 0x11, 0x30, 0x0f, 0x06, 0x03,
    0x55, 0x04, 0x03, 0x0c, 0x08, 0x50, 0x4c, 0x20, 0x49, 0x6e, 0x74, 0x65, 0x72, 0x30, 0x1e, 0x17,
    0x0d, 0x32, 0x30, 0x30, 0x31, 0x30, 0x31, 0x30, 0x30, 0x30, 0x30, 0x30, 0x30, 0x5a, 0x17, 0x0d,
    0x34, 0x39, 0x31, 0x32, 0x33, 0x31, 0x32, 0x33, 0x35, 0x39, 0x35, 0x39, 0x5a, 0x30, 0x1f, 0x31,
    0x0b, 0x30, 0x09, 0x06, 0x03, 0x55, 0x04, 0x06, 0x13, 0x02, 0x55, 0x53, 0x31, 0x10, 0x30, 0x0e,
    0x06, 0x03, 0x55, 0x04, 0x03, 0x0c, 0x07, 0x50, 0x4c, 0x20, 0x4c, 0x65, 0x61, 0x66, 0x30, 0x59,
    0x30, 0x13, 0x06, 0x07, 0x2a, 0x86, 0x48, 0xce, 0x3d, 0x02, 0x01, 0x06, 0x08, 0x2a, 0x86, 0x48,
    0xce, 0x3d, 0x03, 0x01, 0x07, 0x03, 0x42, 0x00, 0x04, 0xf0, 0xfa, 0xdf, 0x49, 0xea, 0xc5, 0x70,
    0xfb, 0x3c, 0xde, 0x25, 0x30, 0xce, 0xfc, 0x56, 0x22, 0x73, 0x3d, 0x25, 0xce, 0x24, 0xd5, 0x5f,
    0x74, 0xaa, 0x3f, 0x76, 0x50, 0x27, 0x38, 0xa4, 0x2f, 0xc3, 0x81, 0xd7, 0xe5, 0xe7, 0xd7, 0x7a,
    0xfb, 0xec, 0xa1, 0xc0, 0x75, 0x18, 0xba, 0x75, 0x1f, 0xe9, 0x9c, 0xb5, 0x9e, 0x8a, 0x83, 0x8f,
    0x10, 0x45, 0xc8, 0x0a, 0x28, 0xce, 0x69, 0x4b, 0x46, 0xa3, 0x10, 0x30, 0x0e, 0x30, 0x0c, 0x06,
    0x03, 0x55, 0x1d, 0x13, 0x01, 0x01, 0xff, 0x04, 0x02, 0x30, 0x00, 0x30, 0x0a, 0x06, 0x08, 0x2a,
    0x86, 0x48, 0xce, 0x3d, 0x04, 0x03, 0x02, 0x03, 0x47, 0x00, 0x30, 0x44, 0x02, 0x20, 0x42, 0xf3,
    0x30, 0x57, 0x43, 0xc9, 0xcb, 0x9b, 0x63, 0xe5, 0x73, 0xbd, 0x61, 0x3e, 0x82, 0xde, 0x5b, 0x55,
    0x28, 0x10, 0xf9, 0x51, 0x84, 0x5d, 0x56, 0x8d, 0x43, 0x71, 0xb6, 0xb6, 0x03, 0x14, 0x02, 0x20,
    0x5a, 0x35, 0x85, 0x68, 0x03, 0x97, 0xd5, 0x1f, 0x83, 0x33, 0x7c, 0x04, 0x60, 0x38, 0xfd, 0xe8,
    0x01, 0xe8, 0x14, 0x30, 0xd9, 0xc4, 0xb7, 0x7a, 0xb8, 0x83, 0x2a, 0x40, 0x12, 0x36, 0x9b, 0xa5,
];

const PL_INTER_TWO: &[u8] = &[
    0x30, 0x82, 0x01, 0x55, 0x30, 0x81, 0xfc, 0xa0, 0x03, 0x02, 0x01, 0x02, 0x02, 0x01, 0x54, 0x30,
    0x0a, 0x06, 0x08, 0x2a, 0x86, 0x48, 0xce, 0x3d, 0x04, 0x03, 0x02, 0x30, 0x20, 0x31, 0x0b, 0x30,
    0x09, 0x06, 0x03, 0x55, 0x04, 0x06, 0x13, 0x02, 0x55, 0x53, 0x31, 0x11, 0x30, 0x0f, 0x06, 0x03,
    0x55, 0x04, 0x03, 0x0c, 0x08, 0x50, 0x4c, 0x20, 0x49, 0x6e, 0x74, 0x65, 0x72, 0x30, 0x1e, 0x17,
    0x0d, 0x32, 0x30, 0x30, 0x31, 0x30, 0x31, 0x30, 0x30, 0x30, 0x30, 0x30, 0x30, 0x5a, 0x17, 0x0d,
    0x34, 0x39, 0x31, 0x32, 0x33, 0x31, 0x32, 0x33, 0x35, 0x39, 0x35, 0x39, 0x5a, 0x30, 0x24, 0x31,
    0x0b, 0x30, 0x09, 0x06, 0x03, 0x55, 0x04, 0x06, 0x13, 0x02, 0x55, 0x53, 0x31, 0x15, 0x30, 0x13,
    0x06, 0x03, 0x55, 0x04, 0x03, 0x0c, 0x0c, 0x50, 0x4c, 0x20, 0x49, 0x6e, 0x74, 0x65, 0x72, 0x20,
    0x54, 0x77, 0x6f, 0x30, 0x59, 0x30, 0x13, 0x06, 0x07, 0x2a, 0x86, 0x48, 0xce, 0x3d, 0x02, 0x01,
    0x06, 0x08, 0x2a, 0x86, 0x48, 0xce, 0x3d, 0x03, 0x01, 0x07, 0x03, 0x42, 0x00, 0x04, 0x4b, 0x7c,
    0x15, 0x8f, 0x05, 0x37, 0x0c, 0x3f, 0x2c, 0x3a, 0xcf, 0x95, 0xe2, 0x39, 0xcc, 0x0f, 0xfb, 0x83,
    0x23, 0xf2, 0x8d, 0xe0, 0x7b, 0x8a, 0xfe, 0x93, 0xc4, 0xbf, 0xe8, 0xc4, 0x93, 0x79, 0xbf, 0xf6,
    0x12, 0x8c, 0x1d, 0xce, 0x24, 0xf1, 0x27, 0x9f, 0x7a, 0xb0, 0x33, 0xb4, 0x31, 0x9c, 0x31, 0xd2,
    0x4a, 0x7e, 0x82, 0xec, 0xf7, 0xdf, 0x12, 0x46, 0x65, 0xc9, 0x3e, 0xe7, 0x2c, 0xf5, 0xa3, 0x23,
    0x30, 0x21, 0x30, 0x0f, 0x06, 0x03, 0x55, 0x1d, 0x13, 0x01, 0x01, 0xff, 0x04, 0x05, 0x30, 0x03,
    0x01, 0x01, 0xff, 0x30, 0x0e, 0x06, 0x03, 0x55, 0x1d, 0x0f, 0x01, 0x01, 0xff, 0x04, 0x04, 0x03,
    0x02, 0x01, 0x06, 0x30, 0x0a, 0x06, 0x08, 0x2a, 0x86, 0x48, 0xce, 0x3d, 0x04, 0x03, 0x02, 0x03,
    0x48, 0x00, 0x30, 0x45, 0x02, 0x20, 0x24, 0x84, 0x45, 0xc0, 0xb3, 0xfe, 0x66, 0x6d, 0x1e, 0xaf,
    0xe2, 0xc6, 0x69, 0xf9, 0x75, 0x45, 0xc3, 0x3e, 0x92, 0x5b, 0x62, 0xb4, 0xc8, 0x01, 0x47, 0xc6,
    0xed, 0x0f, 0xf2, 0x0b, 0xb7, 0x45, 0x02, 0x21, 0x00, 0xa4, 0x00, 0x1b, 0xf4, 0x56, 0x46, 0xf3,
    0x35, 0x9d, 0xd3, 0x4d, 0x56, 0x4e, 0x7e, 0x5e, 0x0b, 0x75, 0x2f, 0xef, 0x7a, 0xc8, 0x8a, 0x55,
    0x57, 0x7d, 0xe6, 0x45, 0x35, 0xf1, 0x4d, 0x0f, 0x33,
];

const PL_LEAF_TWO: &[u8] = &[
    0x30, 0x82, 0x01, 0x46, 0x30, 0x81, 0xec, 0xa0, 0x03, 0x02, 0x01, 0x02, 0x02, 0x01, 0x55, 0x30,
    0x0a, 0x06, 0x08, 0x2a, 0x86, 0x48, 0xce, 0x3d, 0x04, 0x03, 0x02, 0x30, 0x24, 0x31, 0x0b, 0x30,
    0x09, 0x06, 0x03, 0x55, 0x04, 0x06, 0x13, 0x02, 0x55, 0x53, 0x31, 0x15, 0x30, 0x13, 0x06, 0x03,
    0x55, 0x04, 0x03, 0x0c, 0x0c, 0x50, 0x4c, 0x20, 0x49, 0x6e, 0x74, 0x65, 0x72, 0x20, 0x54, 0x77,
    0x6f, 0x30, 0x1e, 0x17, 0x0d, 0x32, 0x30, 0x30, 0x31, 0x30, 0x31, 0x30, 0x30, 0x30, 0x30, 0x30,
    0x30, 0x5a, 0x17, 0x0d, 0x34, 0x39, 0x31, 0x32, 0x33, 0x31, 0x32, 0x33, 0x35, 0x39, 0x35, 0x39,
    0x5a, 0x30, 0x23, 0x31, 0x0b, 0x30, 0x09, 0x06, 0x03, 0x55, 0x04, 0x06, 0x13, 0x02, 0x55, 0x53,
    0x31, 0x14, 0x30, 0x12, 0x06, 0x03, 0x55, 0x04, 0x03, 0x0c, 0x0b, 0x50, 0x4c, 0x20, 0x4c, 0x65,
    0x61, 0x66, 0x20, 0x54, 0x77, 0x6f, 0x30, 0x59, 0x30, 0x13, 0x06, 0x07, 0x2a, 0x86, 0x48, 0xce,
    0x3d, 0x02, 0x01, 0x06, 0x08, 0x2a, 0x86, 0x48, 0xce, 0x3d, 0x03, 0x01, 0x07, 0x03, 0x42, 0x00,
    0x04, 0xf0, 0xfa, 0xdf, 0x49, 0xea, 0xc5, 0x70, 0xfb, 0x3c, 0xde, 0x25, 0x30, 0xce, 0xfc, 0x56,
    0x22, 0x73, 0x3d, 0x25, 0xce, 0x24, 0xd5, 0x5f, 0x74, 0xaa, 0x3f, 0x76, 0x50, 0x27, 0x38, 0xa4,
    0x2f, 0xc3, 0x81, 0xd7, 0xe5, 0xe7, 0xd7, 0x7a, 0xfb, 0xec, 0xa1, 0xc0, 0x75, 0x18, 0xba, 0x75,
    0x1f, 0xe9, 0x9c, 0xb5, 0x9e, 0x8a, 0x83, 0x8f, 0x10, 0x45, 0xc8, 0x0a, 0x28, 0xce, 0x69, 0x4b,
    0x46, 0xa3, 0x10, 0x30, 0x0e, 0x30, 0x0c, 0x06, 0x03, 0x55, 0x1d, 0x13, 0x01, 0x01, 0xff, 0x04,
    0x02, 0x30, 0x00, 0x30, 0x0a, 0x06, 0x08, 0x2a, 0x86, 0x48, 0xce, 0x3d, 0x04, 0x03, 0x02, 0x03,
    0x49, 0x00, 0x30, 0x46, 0x02, 0x21, 0x00, 0xe2, 0xd8, 0x99, 0x56, 0xa0, 0xbf, 0xe6, 0xc1, 0x3f,
    0xa3, 0x80, 0xc1, 0x1c, 0x31, 0x78, 0x48, 0x7b, 0x6b, 0x52, 0x6b, 0xf7, 0xb7, 0x84, 0x03, 0x52,
    0x1a, 0xef, 0xdb, 0x2b, 0x3c, 0x3a, 0x79, 0x02, 0x21, 0x00, 0xcf, 0x2a, 0x1e, 0x63, 0x28, 0xec,
    0xca, 0xfc, 0xfa, 0x0b, 0xc4, 0x3e, 0x06, 0xfb, 0x57, 0x62, 0xc7, 0xe6, 0x51, 0x8a, 0x33, 0xfa,
    0x6c, 0xc3, 0x4b, 0xcd, 0x09, 0x4f, 0xde, 0x30, 0x97, 0xa4,
];

const MESSAGE: &[u8] = &[
    0x53, 0x50, 0x44, 0x4d, 0x20, 0x74, 0x65, 0x73, 0x74, 0x20, 0x6d, 0x65, 0x73, 0x73, 0x61, 0x67,
    0x65,
];

const P384_POINT: &[u8] = &[
    0x04, 0x0d, 0x19, 0x1e, 0x66, 0x1d, 0x89, 0xc9, 0xf9, 0x0f, 0x27, 0x47, 0x02, 0xfd, 0x3c, 0xa0,
    0xc8, 0x0c, 0xbc, 0x89, 0x39, 0x09, 0x00, 0xa0, 0xb7, 0xd6, 0xe6, 0xe5, 0xc1, 0x80, 0xc5, 0x83,
    0xe4, 0x99, 0xcd, 0x09, 0x40, 0x43, 0x64, 0x8a, 0x02, 0xea, 0x08, 0x68, 0xe6, 0x2c, 0x94, 0x55,
    0xea, 0xcb, 0x28, 0x71, 0x36, 0xc2, 0x93, 0xfb, 0x98, 0xf1, 0xcb, 0xfe, 0xc6, 0x01, 0x34, 0x9f,
    0x9d, 0x09, 0x98, 0xb8, 0xa1, 0x4d, 0xe5, 0x5a, 0x6a, 0x6d, 0x11, 0x5e, 0xe0, 0x47, 0xdb, 0x53,
    0x3b, 0x2e, 0x77, 0x37, 0x6d, 0x7b, 0x97, 0x43, 0xfa, 0xe9, 0xe9, 0x29, 0x17, 0x89, 0x3a, 0x95,
    0x28,
];

const P384_SHA256_SIGNATURE: &[u8] = &[
    0x30, 0x64, 0x02, 0x30, 0x76, 0xdd, 0xb1, 0x70, 0x22, 0x30, 0x6b, 0x5f, 0xce, 0xaf, 0x70, 0xff,
    0xb8, 0x71, 0xa8, 0xba, 0x3e, 0x09, 0x03, 0x3c, 0xd5, 0xf6, 0x7f, 0xe3, 0xa5, 0xe9, 0xff, 0x89,
    0xc3, 0xb9, 0xbd, 0x36, 0xef, 0x28, 0xdf, 0x9e, 0x4b, 0xa5, 0xbc, 0xca, 0xf8, 0xcf, 0x35, 0x9d,
    0x40, 0xd0, 0x7a, 0x82, 0x02, 0x30, 0x22, 0xae, 0x96, 0x93, 0x05, 0x8b, 0xb7, 0x52, 0x78, 0x9d,
    0xa7, 0x1e, 0x83, 0x44, 0x7f, 0x85, 0x1e, 0x6e, 0xbd, 0x2b, 0x2c, 0x2d, 0x1d, 0xf4, 0x51, 0x57,
    0x2f, 0xf0, 0xb0, 0xfc, 0xb7, 0x56, 0x61, 0x84, 0x44, 0x3e, 0x02, 0x46, 0xc2, 0x4d, 0x09, 0x51,
    0xcd, 0xd8, 0x6a, 0xa8, 0x56, 0x9a,
];

const LEAF_SPKI: &[u8] = &[
    0x30, 0x59, 0x30, 0x13, 0x06, 0x07, 0x2a, 0x86, 0x48, 0xce, 0x3d, 0x02, 0x01, 0x06, 0x08, 0x2a,
    0x86, 0x48, 0xce, 0x3d, 0x03, 0x01, 0x07, 0x03, 0x42, 0x00, 0x04, 0xf0, 0xfa, 0xdf, 0x49, 0xea,
    0xc5, 0x70, 0xfb, 0x3c, 0xde, 0x25, 0x30, 0xce, 0xfc, 0x56, 0x22, 0x73, 0x3d, 0x25, 0xce, 0x24,
    0xd5, 0x5f, 0x74, 0xaa, 0x3f, 0x76, 0x50, 0x27, 0x38, 0xa4, 0x2f, 0xc3, 0x81, 0xd7, 0xe5, 0xe7,
    0xd7, 0x7a, 0xfb, 0xec, 0xa1, 0xc0, 0x75, 0x18, 0xba, 0x75, 0x1f, 0xe9, 0x9c, 0xb5, 0x9e, 0x8a,
    0x83, 0x8f, 0x10, 0x45, 0xc8, 0x0a, 0x28, 0xce, 0x69, 0x4b, 0x46,
];

const LEAF_SIGNATURE: &[u8] = &[
    0x30, 0x45, 0x02, 0x21, 0x00, 0xd4, 0x51, 0x28, 0xff, 0xd2, 0x1e, 0xc9, 0x32, 0xe8, 0x4d, 0xf3,
    0xec, 0x1b, 0xdf, 0x7d, 0x2b, 0xad, 0x1f, 0x4f, 0xa7, 0x7c, 0xfa, 0xbf, 0xff, 0x86, 0x59, 0x3b,
    0x53, 0xc5, 0xfa, 0xb3, 0x49, 0x02, 0x20, 0x1b, 0x32, 0x42, 0x35, 0x45, 0xcb, 0xfc, 0xb8, 0x00,
    0x87, 0x4c, 0x0f, 0x3b, 0x3a, 0xdf, 0x61, 0xeb, 0xbd, 0xd0, 0x4b, 0xa8, 0xc0, 0x4e, 0xe0, 0xe2,
    0x9f, 0xf1, 0x1b, 0x00, 0x45, 0xe3, 0xba,
];

const RSA_2040_SPKI: &[u8] = &[
    0x30, 0x82, 0x01, 0x21, 0x30, 0x0d, 0x06, 0x09, 0x2a, 0x86, 0x48, 0x86, 0xf7, 0x0d, 0x01, 0x01,
    0x01, 0x05, 0x00, 0x03, 0x82, 0x01, 0x0e, 0x00, 0x30, 0x82, 0x01, 0x09, 0x02, 0x82, 0x01, 0x00,
    0x00, 0xc0, 0x35, 0x62, 0xa7, 0x96, 0x2d, 0x9c, 0x67, 0x14, 0xd2, 0xed, 0xe8, 0x38, 0x55, 0x97,
    0x23, 0x14, 0x74, 0x17, 0x00, 0xc0, 0xd6, 0x43, 0xc6, 0x0b, 0x48, 0x1e, 0x11, 0xc4, 0x4a, 0x14,
    0x34, 0x36, 0x8f, 0x5b, 0x61, 0xf3, 0x6f, 0xe6, 0xf2, 0xc0, 0xe2, 0x01, 0x66, 0x1d, 0x1b, 0xd9,
    0x9c, 0x4e, 0x56, 0xbb, 0x53, 0x6c, 0x70, 0x32, 0x61, 0x27, 0xb0, 0xb6, 0x5e, 0xe7, 0xb7, 0x1d,
    0x52, 0x14, 0xfe, 0x9f, 0xa6, 0xd4, 0xbd, 0xb8, 0xb2, 0xcd, 0xc9, 0xf5, 0x55, 0x70, 0xad, 0x89,
    0xd8, 0x13, 0x7a, 0x04, 0x25, 0x14, 0x46, 0x31, 0x16, 0xdd, 0x94, 0x09, 0xe2, 0x98, 0x3c, 0x8b,
    0x91, 0xc8, 0xeb, 0x70, 0xfd, 0x18, 0xfa, 0x55, 0x32, 0x26, 0x72, 0x5e, 0xfd, 0x65, 0x36, 0x8d,
    0x95, 0xd2, 0x42, 0x86, 0xee, 0x11, 0x85, 0xd5, 0x7e, 0x85, 0x39, 0x0b, 0x3e, 0x45, 0xa2, 0xa2,
    0x7f, 0xe0, 0x54, 0x7e, 0x5f, 0x0f, 0x6c, 0x46, 0xe6, 0xe7, 0x2d, 0x99, 0x7d, 0xbc, 0xf1, 0x18,
    0xa4, 0x05, 0x45, 0x89, 0xdc, 0x1f, 0xd0, 0x3a, 0x2f, 0x7f, 0x45, 0x70, 0x38, 0x74, 0x10, 0x2f,
    0x31, 0xaf, 0x27, 0xca, 0x61, 0xd9, 0x5a, 0xf7, 0x98, 0x52, 0x91, 0x5e, 0x7d, 0x02, 0x75, 0xeb,
    0x41, 0x25, 0xc0, 0xf1, 0xc3, 0xbb, 0x76, 0xaf, 0x17, 0xd7, 0xfe, 0x7b, 0xc5, 0x21, 0xcb, 0x0d,
    0xf3, 0x44, 0xf9, 0x29, 0xfd, 0x7e, 0x24, 0xdc, 0xec, 0x55, 0x65, 0xe3, 0x1b, 0xbc, 0x60, 0xb7,
    0x71, 0xd5, 0x9c, 0x31, 0x0a, 0x2a, 0x1e, 0x6c, 0x8b, 0x88, 0xd5, 0xe2, 0xd2, 0xbc, 0xba, 0xa0,
    0x14, 0xa7, 0x85, 0xf2, 0x3c, 0x0d, 0xc1, 0x60, 0xf3, 0x95, 0xa3, 0x3b, 0xe0, 0x1b, 0xdb, 0x9e,
    0x2f, 0x46, 0x3b, 0xb2, 0xc3, 0xed, 0xc5, 0x01, 0xb5, 0x4d, 0xd9, 0xeb, 0x5a, 0xd8, 0x96, 0x39,
    0x02, 0x03, 0x01, 0x00, 0x01,
];

const RSA_3072_SPKI: &[u8] = &[
    0x30, 0x82, 0x01, 0xa2, 0x30, 0x0d, 0x06, 0x09, 0x2a, 0x86, 0x48, 0x86, 0xf7, 0x0d, 0x01, 0x01,
    0x01, 0x05, 0x00, 0x03, 0x82, 0x01, 0x8f, 0x00, 0x30, 0x82, 0x01, 0x8a, 0x02, 0x82, 0x01, 0x81,
    0x00, 0xb9, 0x10, 0xea, 0xfa, 0xfa, 0x7f, 0xf5, 0x92, 0xc7, 0x03, 0x57, 0x5b, 0x04, 0x8d, 0x35,
    0x17, 0x05, 0xe3, 0xec, 0x66, 0xa7, 0x2b, 0x28, 0x42, 0xef, 0xc5, 0x6d, 0x72, 0x63, 0x7b, 0x44,
    0x97, 0xd2, 0x5f, 0x00, 0xa4, 0xea, 0x21, 0x6d, 0x73, 0xd7, 0x74, 0x27, 0xcc, 0x70, 0x6d, 0x7e,
    0x5f, 0x72, 0x74, 0xe8, 0xb3, 0xfb, 0xfa, 0xab, 0xd7, 0x79, 0x7e, 0x78, 0x53, 0xc8, 0x64, 0x3c,
    0xc8, 0x4d, 0x3e, 0xe6, 0x45, 0x35, 0x11, 0xfb, 0xad, 0xdb, 0x7f, 0x2f, 0x31, 0x22, 0x68, 0xa0,
    0x6e, 0x0f, 0xec, 0xab, 0x68, 0x0e, 0x3a, 0xac, 0x6b, 0xa0, 0x4f, 0x07, 0xe4, 0x42, 0xc9, 0x0e,
    0xf3, 0xdd, 0x44, 0x19, 0x06, 0x83, 0x21, 0xb6, 0xbc, 0x58, 0x5f, 0x9a, 0xc0, 0x4c, 0x49, 0x8e,
    0x44, 0x5d, 0x98, 0x06, 0x5f, 0xbe, 0x73, 0x5a, 0x08, 0x50, 0xe8, 0x1c, 0x5c, 0xd7, 0x3b, 0x9e,
    0x07, 0xb4, 0xea, 0xf5, 0xd6, 0xa4, 0xf3, 0x00, 0xfc, 0x86, 0xa8, 0xf9, 0xc1, 0x9a, 0x9e, 0x56,
    0x4e, 0x5a, 0xea, 0x17, 0xba, 0x70, 0x34, 0x53, 0x4d, 0x51, 0x8b, 0xbb, 0xb3, 0x6d, 0x3f, 0x6e,
    0x4a, 0x03, 0x99, 0x73, 0x11, 0x71, 0x6e, 0xb0, 0x83, 0xa3, 0x23, 0x71, 0x88, 0x53, 0x29, 0xa4,
    0xe2, 0xb1, 0xc3, 0x9c, 0xbc, 0x2e, 0x5d, 0x46, 0x3b, 0x3a, 0xe1, 0xe8, 0x3c, 0xe3, 0xc9, 0xce,
    0x2c, 0x18, 0x49, 0xdd, 0xc0, 0x34, 0x0c, 0xc9, 0x2d, 0x4b, 0x82, 0x12, 0x61, 0x08, 0x4d, 0x03,
    0x09, 0x66, 0x42, 0x5c, 0xbb, 0x58, 0x85, 0xac, 0xf1, 0x85, 0xd4, 0xc8, 0x56, 0xac, 0x3a, 0x90,
    0xd3, 0x01, 0x21, 0xb8, 0xbf, 0x94, 0x85, 0x69, 0x1a, 0xf4, 0x0d, 0xb5, 0x40, 0x19, 0x29, 0x73,
    0xac, 0x31, 0x1f, 0x59, 0x53, 0x5c, 0xed, 0x9a, 0x18, 0x45, 0x33, 0xe2, 0x04, 0xc6, 0x27, 0x46,
    0x0b, 0x2b, 0xa4, 0x41, 0xa5, 0xcf, 0x0d, 0x90, 0x2e, 0xa8, 0xbe, 0x2d, 0x6d, 0x0c, 0xe5, 0x88,
    0xc3, 0x31, 0xe7, 0x3c, 0xa4, 0x10, 0x89, 0x43, 0xc6, 0xf5, 0x45, 0xb9, 0xc1, 0x7d, 0xa4, 0xd9,
    0xb2, 0xe4, 0xc1, 0x5f, 0x56, 0x48, 0x94, 0x93, 0x41, 0x70, 0x52, 0xaf, 0x40, 0xd8, 0xac, 0x59,
    0xae, 0x25, 0x34, 0x5d, 0xd6, 0x6b, 0x2c, 0x7d, 0x9b, 0x6e, 0x07, 0x47, 0x22, 0x68, 0x7d, 0xa7,
    0x8b, 0x80, 0xf6, 0x2d, 0xea, 0xd3, 0x36, 0xc4, 0xf3, 0xbc, 0xfa, 0x33, 0xd4, 0xcd, 0x87, 0x97,
    0xe3, 0x12, 0xd0, 0xc9, 0xce, 0xff, 0x4f, 0xee, 0xd9, 0xf7, 0xf8, 0xda, 0x6d, 0xf7, 0x1e, 0xa4,
    0x4f, 0x47, 0x31, 0x8a, 0x83, 0xf4, 0x31, 0xf5, 0xad, 0x0f, 0x49, 0xb7, 0x72, 0xc4, 0x2b, 0x08,
    0x35, 0x11, 0xbb, 0x1d, 0xe2, 0x17, 0xd4, 0xc4, 0xa1, 0xd9, 0x78, 0xb5, 0xd2, 0x69, 0x11, 0x16,
    0x1b, 0x02, 0x03, 0x01, 0x00, 0x01,
];

fn parse(der: &[u8]) -> Certificate {
    Certificate::from_der(der).unwrap()
}

#[test]
fn path_length_zero_allows_a_leaf_below() {
    let v = Validator::new();
    let o = ValidationOptions::new().skip_time_validation();
    let chain = CertificateChain::new(vec![parse(PL_LEAF), parse(PL_INTER), parse(PL_ROOT)]);
    assert_eq!(v.validate_chain(&chain, &o), Ok(()));
    let two = CertificateChain::new(vec![parse(PL_INTER), parse(PL_ROOT)]);
    assert_eq!(v.validate_chain(&two, &o), Ok(()));
}

#[test]
fn path_length_zero_refuses_an_intermediate_below() {
    let v = Validator::new();
    let o = ValidationOptions::new().skip_time_validation();
    let chain = CertificateChain::new(vec![
        parse(PL_LEAF_TWO),
        parse(PL_INTER_TWO),
        parse(PL_INTER),
        parse(PL_ROOT),
    ]);
    assert_eq!(v.validate_chain(&chain, &o), Err(Error::ChainError(ChainError::PathLengthExceeded)));
}

#[test]
fn ecdsa_sha256_on_a_p384_key() {
    assert_eq!(P384_POINT.len(), 97);
    assert_eq!(SignatureAlgorithm::EcdsaSha256.verify_signature(MESSAGE, P384_SHA256_SIGNATURE, P384_POINT), Ok(()));
    let mut bad = MESSAGE.to_vec();
    bad[1] ^= 1;
    assert!(SignatureAlgorithm::EcdsaSha256.verify_signature(&bad, P384_SHA256_SIGNATURE, P384_POINT).is_err());
}

#[test]
fn spdm_verify_signature_with_a_raw_public_key() {
    assert_eq!(
        verify_signature(SpdmBaseHashAlgo::Sha256, SpdmBaseAsymAlgo::EcdsaP256, LEAF_SPKI, MESSAGE, LEAF_SIGNATURE),
        Ok(())
    );
    assert_eq!(
        verify_signature(SpdmBaseHashAlgo::Sha256, SpdmBaseAsymAlgo::EcdsaP256, PL_LEAF, MESSAGE, LEAF_SIGNATURE),
        Ok(())
    );
    assert_eq!(
        verify_signature(SpdmBaseHashAlgo::Sha384, SpdmBaseAsymAlgo::EcdsaP256, LEAF_SPKI, MESSAGE, LEAF_SIGNATURE),
        Err(Error::SignatureFailed)
    );
}

#[test]
fn rsa_key_sizes_are_exact() {
    assert_eq!(estimate_rsa_key_size(RSA_2040_SPKI), Ok(2040));
    assert!(verify_rsa_key_size(RSA_2040_SPKI, 1 << 0).is_err());
    assert_eq!(estimate_rsa_key_size(RSA_3072_SPKI), Ok(3072));
    assert_eq!(verify_rsa_key_size(RSA_3072_SPKI, 1 << 2), Ok(()));
    assert!(verify_rsa_key_size(RSA_3072_SPKI, 1 << 0).is_err());
}

#[test]
fn malformed_rsa_key_is_an_error() {
    let der: &[u8] = &[
        0x30, 0x16, 0x30, 0x0D, 0x06, 0x09, 0x2A, 0x86, 0x48, 0x86, 0xF7, 0x0D, 0x01, 0x01, 0x01, 0x05, 0x00, 0x03,
        0x05, 0x00, 0x30, 0x81, 0x00, 0x02,
    ];
    assert!(verify_rsa_key_size(der, 1 << 0).is_err());
    assert!(estimate_rsa_key_size(der).is_err());
}

#[test]
fn rsa_modulus_scan() {
    // SEQUENCE { INTEGER 0x0080, ... }: the sign octet is not counted.
    assert_eq!(rsa_scan(&[0x30, 0x06, 0x02, 0x02, 0x00, 0x80, 0x02, 0x00]), Ok(8));
    // SEQUENCE { INTEGER 0x01, ... }: one significant bit.
    assert_eq!(rsa_scan(&[0x30, 0x05, 0x02, 0x01, 0x01, 0x02, 0x00]), Ok(1));
    // A long-form modulus length: 0x0101 octets after a sign octet.
    assert_eq!(rsa_scan(&[0x30, 0x82, 0x01, 0x0A, 0x02, 0x82, 0x01, 0x01, 0x00, 0x30]), Ok(2046));
    assert!(rsa_scan(&[0x30, 0x81, 0x00, 0x02]).is_err());
    assert!(rsa_scan(&[0x31, 0x05, 0x02, 0x01, 0x01]).is_err());
    assert!(rsa_scan(&[0x30, 0x05]).is_err());
}

#[test]
fn bytes_after_a_certificate_are_not_written_back() {
    let mut longer = PL_LEAF.to_vec();
    longer.push(0x00);
    let cert = Certificate::from_der(&longer).unwrap();
    assert_eq!(cert.to_der().unwrap(), PL_LEAF.to_vec());
    assert_eq!(Certificate::from_der(PL_LEAF).unwrap().to_der().unwrap(), PL_LEAF.to_vec());
}

#[test]
fn explicit_false_critical_is_read_and_left_out_when_written() {
    let der = [0x30, 0x0A, 0x06, 0x03, 0x55, 0x1D, 0x13, 0x01, 0x01, 0x00, 0x04, 0x00];
    let (ext, end) = Extension::read(&der, 0, der.len()).unwrap();
    assert_eq!(end, der.len());
    assert!(!ext.critical);
    assert_eq!(ext.encode().unwrap(), vec![0x30, 0x07, 0x06, 0x03, 0x55, 0x1D, 0x13, 0x04, 0x00]);
}
