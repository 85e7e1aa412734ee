//! SPDM (Security Protocol and Data Model) certificate rules.
pub mod algorithm_verification;
pub mod chain;
pub mod oids;
pub mod validator;
