//! X.509 certificate handling for SPDM (DMTF DSP0274) devices.
//!
//! The library parses DER certificates, checks them one by one and as
//! chains, and applies the SPDM rules on algorithms, extended key usages,
//! hardware identity and certificate chain framing.
pub mod algorithms;
pub mod bytes;
pub mod certificate;
pub mod crypto;
pub mod crypto_backend;
pub mod der;
pub mod directory_string;
pub mod encoding_laws;
pub mod error;
pub mod extensions;
pub mod general_name;
pub mod name;
pub mod name_strings;
pub mod oid;
pub mod reading_laws;
pub mod text;
pub mod unicode;
pub mod validator;

pub mod spdm;
