//! Errors of the library.
use vstd::prelude::*;

verus! {

/// Failures of DER (ASN.1) decoding.
#[derive(Debug, Clone, Copy, PartialEq, Eq, Structural)]
pub enum Asn1Error {
    /// The bytes do not follow the expected DER structure.
    Malformed,
    /// A value is well framed but not allowed (for instance a negative
    /// serial number or an unknown version).
    InvalidValue,
}

/// Failures of parsing certificate chain framing.
#[derive(Debug, Clone, PartialEq, Eq)]
pub enum ParseError {
    InvalidDer(String),
}

/// Failures of PEM encoding or decoding.
#[derive(Debug, Clone, PartialEq, Eq)]
pub enum EncodingError {
    InvalidPem(String),
}

/// Algorithm negotiation failures.
#[derive(Debug, Clone, PartialEq, Eq)]
pub enum AlgorithmError {
    Unsupported(String),
}

/// Key failures.
#[derive(Debug, Clone, PartialEq, Eq)]
pub enum KeyError {
    WeakKey { algorithm: String, bits: usize },
}

/// Extension failures.
#[derive(Debug, Clone, PartialEq, Eq)]
pub enum ExtensionError {
    InvalidEncoding(String),
    ExtendedKeyUsage(String),
    MissingRequiredExtension(String),
    InvalidValue(String),
    BasicConstraints(String),
    UnknownCriticalExtension(String),
}

/// Validity period failures.
#[derive(Debug, Clone, Copy, PartialEq, Eq, Structural)]
pub enum TimeError {
    NotYetValid,
    Expired,
    InvalidTime,
}

/// Certificate chain failures.
#[derive(Debug, Clone, Copy, PartialEq, Eq, Structural)]
pub enum ChainError {
    EmptyChain,
    ChainTooLong,
    IssuerMismatch,
    IssuerNotCA,
    PathLengthExceeded,
}

/// The library's error.
#[derive(Debug, Clone, PartialEq, Eq)]
pub enum Error {
    Asn1(Asn1Error),
    ParseError(ParseError),
    EncodingError(EncodingError),
    AlgorithmError(AlgorithmError),
    KeyError(KeyError),
    ExtensionError(ExtensionError),
    ValidationError(String),
    TimeError(TimeError),
    ChainError(ChainError),
    /// A signature did not verify.
    SignatureFailed,
}

impl Error {
    /// The error for a signature that did not verify.
    pub fn signature_failed() -> (r: Error)
        ensures
            r == Error::SignatureFailed,
    {
        Error::SignatureFailed
    }

    /// The error for an unsupported algorithm.
    pub fn unsupported_algorithm(message: String) -> (r: Error)
        ensures
            r == Error::AlgorithmError(AlgorithmError::Unsupported(message)),
    {
        Error::AlgorithmError(AlgorithmError::Unsupported(message))
    }
}

/// The library's result.
pub type Result<T> = core::result::Result<T, Error>;

/// A message as an owned string.
pub fn text(s: &str) -> (r: String)
    ensures
        r@ == s@,
{
    s.to_owned()
}

/// The mathematical value of an extension error: its kind and message.
pub enum ExtensionErrorView {
    InvalidEncoding(Seq<char>),
    ExtendedKeyUsage(Seq<char>),
    MissingRequiredExtension(Seq<char>),
    InvalidValue(Seq<char>),
    BasicConstraints(Seq<char>),
    UnknownCriticalExtension(Seq<char>),
}

impl View for ExtensionError {
    type V = ExtensionErrorView;

    open spec fn view(&self) -> ExtensionErrorView {
        match self {
            ExtensionError::InvalidEncoding(m) => ExtensionErrorView::InvalidEncoding(m@),
            ExtensionError::ExtendedKeyUsage(m) => ExtensionErrorView::ExtendedKeyUsage(m@),
            ExtensionError::MissingRequiredExtension(m) => ExtensionErrorView::MissingRequiredExtension(m@),
            ExtensionError::InvalidValue(m) => ExtensionErrorView::InvalidValue(m@),
            ExtensionError::BasicConstraints(m) => ExtensionErrorView::BasicConstraints(m@),
            ExtensionError::UnknownCriticalExtension(m) => ExtensionErrorView::UnknownCriticalExtension(m@),
        }
    }
}

/// The mathematical value of an error: its kind, with its messages as
/// character sequences.
pub enum ErrorView {
    Asn1(Asn1Error),
    ParseError(Seq<char>),
    EncodingError(Seq<char>),
    AlgorithmError(Seq<char>),
    KeyError(Seq<char>, usize),
    ExtensionError(ExtensionErrorView),
    ValidationError(Seq<char>),
    TimeError(TimeError),
    ChainError(ChainError),
    SignatureFailed,
}

impl View for Error {
    type V = ErrorView;

    open spec fn view(&self) -> ErrorView {
        match self {
            Error::Asn1(e) => ErrorView::Asn1(*e),
            Error::ParseError(ParseError::InvalidDer(m)) => ErrorView::ParseError(m@),
            Error::EncodingError(EncodingError::InvalidPem(m)) => ErrorView::EncodingError(m@),
            Error::AlgorithmError(AlgorithmError::Unsupported(m)) => ErrorView::AlgorithmError(m@),
            Error::KeyError(KeyError::WeakKey { algorithm, bits }) => ErrorView::KeyError(algorithm@, *bits),
            Error::ExtensionError(e) => ErrorView::ExtensionError(e@),
            Error::ValidationError(m) => ErrorView::ValidationError(m@),
            Error::TimeError(e) => ErrorView::TimeError(*e),
            Error::ChainError(e) => ErrorView::ChainError(*e),
            Error::SignatureFailed => ErrorView::SignatureFailed,
        }
    }
}

/// The mathematical value of a result of the library.
pub open spec fn spec_res<T>(r: Result<T>) -> core::result::Result<T, ErrorView> {
    match r {
        Ok(v) => Ok(v),
        Err(e) => Err(e@),
    }
}

} // verus!
