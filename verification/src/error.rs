//! The errors of attestation and receipt verification, with their messages.

use vstd::prelude::*;

verus! {

/// Why an attestation document could not be produced or checked.
#[derive(Debug, Clone, PartialEq, Eq)]
pub enum AttestationError {
    HardwareUnavailable(String),
    InvalidAttestationDocument(String),
    ValidationError(String),
}

/// Mathematical model of [`AttestationError`].
pub enum AttestationErrorView {
    HardwareUnavailable(Seq<char>),
    InvalidAttestationDocument(Seq<char>),
    ValidationError(Seq<char>),
}

impl View for AttestationError {
    type V = AttestationErrorView;

    open spec fn view(&self) -> AttestationErrorView {
        match self {
            AttestationError::HardwareUnavailable(s) => AttestationErrorView::HardwareUnavailable(s@),
            AttestationError::InvalidAttestationDocument(s) => AttestationErrorView::InvalidAttestationDocument(s@),
            AttestationError::ValidationError(s) => AttestationErrorView::ValidationError(s@),
        }
    }
}

/// The message of an attestation error.
pub open spec fn spec_attestation_message(e: AttestationErrorView) -> Seq<char> {
    match e {
        AttestationErrorView::HardwareUnavailable(s) => "NSM driver hardware unavailable: "@ + s,
        AttestationErrorView::InvalidAttestationDocument(s) => "Invalid attestation report signature or structure: "@ + s,
        AttestationErrorView::ValidationError(s) => "Attestation document validation failed: "@ + s,
    }
}

impl AttestationError {
    /// The error's message.
    pub fn message(&self) -> (r: String)
        ensures
            r@ == spec_attestation_message(self@),
    {
        match self {
            AttestationError::HardwareUnavailable(s) => String::from_str("NSM driver hardware unavailable: ").concat(s.as_str()),
            AttestationError::InvalidAttestationDocument(s) => String::from_str("Invalid attestation report signature or structure: ").concat(s.as_str()),
            AttestationError::ValidationError(s) => String::from_str("Attestation document validation failed: ").concat(s.as_str()),
        }
    }
}

/// Why a receipt was rejected.
#[derive(Debug, Clone, PartialEq, Eq)]
pub enum VerifyError {
    InvalidCoseSignature,
    InvalidAttestationDocument(String),
    AttestationDocTimestampMismatch,
    PcrMismatch,
    PubkeyBindingMismatch,
    ReportDataMismatch,
    TimestampSkewExceeded,
    ModelHashMismatch,
    InputHashMismatch,
    OutputHashMismatch,
    NonceMismatch,
    SequenceNumberOutOfOrder,
    EnclaveIdentityChanged,
    MalformedReceipt,
    Attestation(String),
    ReceiptTooLarge,
    InvalidProtectedHeader,
    UnsupportedAlgorithm,
    AlgorithmInUnprotectedHeader,
    UnsupportedAttestationType,
    InvalidTimestamp,
    ExpiredReceipt,
    SequenceNumberExhausted,
    InvalidPcrLength,
}

/// Mathematical model of [`VerifyError`].
pub enum VerifyErrorView {
    InvalidCoseSignature,
    InvalidAttestationDocument(Seq<char>),
    AttestationDocTimestampMismatch,
    PcrMismatch,
    PubkeyBindingMismatch,
    ReportDataMismatch,
    TimestampSkewExceeded,
    ModelHashMismatch,
    InputHashMismatch,
    OutputHashMismatch,
    NonceMismatch,
    SequenceNumberOutOfOrder,
    EnclaveIdentityChanged,
    MalformedReceipt,
    Attestation(Seq<char>),
    ReceiptTooLarge,
    InvalidProtectedHeader,
    UnsupportedAlgorithm,
    AlgorithmInUnprotectedHeader,
    UnsupportedAttestationType,
    InvalidTimestamp,
    ExpiredReceipt,
    SequenceNumberExhausted,
    InvalidPcrLength,
}

impl View for VerifyError {
    type V = VerifyErrorView;

    open spec fn view(&self) -> VerifyErrorView {
        match self {
            VerifyError::InvalidCoseSignature => VerifyErrorView::InvalidCoseSignature,
            VerifyError::InvalidAttestationDocument(s) => VerifyErrorView::InvalidAttestationDocument(s@),
            VerifyError::AttestationDocTimestampMismatch => VerifyErrorView::AttestationDocTimestampMismatch,
            VerifyError::PcrMismatch => VerifyErrorView::PcrMismatch,
            VerifyError::PubkeyBindingMismatch => VerifyErrorView::PubkeyBindingMismatch,
            VerifyError::ReportDataMismatch => VerifyErrorView::ReportDataMismatch,
            VerifyError::TimestampSkewExceeded => VerifyErrorView::TimestampSkewExceeded,
            VerifyError::ModelHashMismatch => VerifyErrorView::ModelHashMismatch,
            VerifyError::InputHashMismatch => VerifyErrorView::InputHashMismatch,
            VerifyError::OutputHashMismatch => VerifyErrorView::OutputHashMismatch,
            VerifyError::NonceMismatch => VerifyErrorView::NonceMismatch,
            VerifyError::SequenceNumberOutOfOrder => VerifyErrorView::SequenceNumberOutOfOrder,
            VerifyError::EnclaveIdentityChanged => VerifyErrorView::EnclaveIdentityChanged,
            VerifyError::MalformedReceipt => VerifyErrorView::MalformedReceipt,
            VerifyError::Attestation(s) => VerifyErrorView::Attestation(s@),
            VerifyError::ReceiptTooLarge => VerifyErrorView::ReceiptTooLarge,
            VerifyError::InvalidProtectedHeader => VerifyErrorView::InvalidProtectedHeader,
            VerifyError::UnsupportedAlgorithm => VerifyErrorView::UnsupportedAlgorithm,
            VerifyError::AlgorithmInUnprotectedHeader => VerifyErrorView::AlgorithmInUnprotectedHeader,
            VerifyError::UnsupportedAttestationType => VerifyErrorView::UnsupportedAttestationType,
            VerifyError::InvalidTimestamp => VerifyErrorView::InvalidTimestamp,
            VerifyError::ExpiredReceipt => VerifyErrorView::ExpiredReceipt,
            VerifyError::SequenceNumberExhausted => VerifyErrorView::SequenceNumberExhausted,
            VerifyError::InvalidPcrLength => VerifyErrorView::InvalidPcrLength,
        }
    }
}

/// The message of a verification error.
pub open spec fn spec_verify_message(e: VerifyErrorView) -> Seq<char> {
    match e {
        VerifyErrorView::InvalidCoseSignature => "Invalid COSE signature"@,
        VerifyErrorView::InvalidAttestationDocument(s) => "Invalid attestation document: "@ + s,
        VerifyErrorView::AttestationDocTimestampMismatch => "Attestation document timestamp mismatch with payload timestamp"@,
        VerifyErrorView::PcrMismatch => "PCR0 value does not match expected value"@,
        VerifyErrorView::PubkeyBindingMismatch => "Enclave ephemeral public key does not match claim 6012"@,
        VerifyErrorView::ReportDataMismatch => "REPORTDATA (user_data) does not match SHA-512 binding hash of public key"@,
        VerifyErrorView::TimestampSkewExceeded => "Timestamp skew exceeds 5-minute skew tolerance"@,
        VerifyErrorView::ModelHashMismatch => "Model hash does not match expected value"@,
        VerifyErrorView::InputHashMismatch => "Input hash does not match expected value"@,
        VerifyErrorView::OutputHashMismatch => "Output hash does not match expected value"@,
        VerifyErrorView::NonceMismatch => "Client nonce does not match Nitro document nonce"@,
        VerifyErrorView::SequenceNumberOutOfOrder => "Sequence number is out of order (not monotonic)"@,
        VerifyErrorView::EnclaveIdentityChanged => "Enclave identity fingerprint changed on stateful verifier"@,
        VerifyErrorView::MalformedReceipt => "Malformed receipt structure"@,
        VerifyErrorView::Attestation(s) => "Attestation error: "@ + s,
        VerifyErrorView::ReceiptTooLarge => "Receipt exceeds the maximum accepted size"@,
        VerifyErrorView::InvalidProtectedHeader => "Invalid or unsupported COSE protected header"@,
        VerifyErrorView::UnsupportedAlgorithm => "Unsupported COSE signature algorithm"@,
        VerifyErrorView::AlgorithmInUnprotectedHeader => "COSE algorithm must not appear in the unprotected header"@,
        VerifyErrorView::UnsupportedAttestationType => "Unsupported attestation type"@,
        VerifyErrorView::InvalidTimestamp => "Invalid timestamp"@,
        VerifyErrorView::ExpiredReceipt => "Receipt timestamp is outside the accepted age window"@,
        VerifyErrorView::SequenceNumberExhausted => "Receipt sequence number space is exhausted"@,
        VerifyErrorView::InvalidPcrLength => "Expected PCR0 value must be 48 bytes"@,
    }
}

impl VerifyError {
    /// The error's message.
    pub fn message(&self) -> (r: String)
        ensures
            r@ == spec_verify_message(self@),
    {
        match self {
            VerifyError::InvalidCoseSignature => String::from_str("Invalid COSE signature"),
            VerifyError::InvalidAttestationDocument(s) => String::from_str("Invalid attestation document: ").concat(s.as_str()),
            VerifyError::AttestationDocTimestampMismatch => String::from_str("Attestation document timestamp mismatch with payload timestamp"),
            VerifyError::PcrMismatch => String::from_str("PCR0 value does not match expected value"),
            VerifyError::PubkeyBindingMismatch => String::from_str("Enclave ephemeral public key does not match claim 6012"),
            VerifyError::ReportDataMismatch => String::from_str("REPORTDATA (user_data) does not match SHA-512 binding hash of public key"),
            VerifyError::TimestampSkewExceeded => String::from_str("Timestamp skew exceeds 5-minute skew tolerance"),
            VerifyError::ModelHashMismatch => String::from_str("Model hash does not match expected value"),
            VerifyError::InputHashMismatch => String::from_str("Input hash does not match expected value"),
            VerifyError::OutputHashMismatch => String::from_str("Output hash does not match expected value"),
            VerifyError::NonceMismatch => String::from_str("Client nonce does not match Nitro document nonce"),
            VerifyError::SequenceNumberOutOfOrder => String::from_str("Sequence number is out of order (not monotonic)"),
            VerifyError::EnclaveIdentityChanged => String::from_str("Enclave identity fingerprint changed on stateful verifier"),
            VerifyError::MalformedReceipt => String::from_str("Malformed receipt structure"),
            VerifyError::Attestation(s) => String::from_str("Attestation error: ").concat(s.as_str()),
            VerifyError::ReceiptTooLarge => String::from_str("Receipt exceeds the maximum accepted size"),
            VerifyError::InvalidProtectedHeader => String::from_str("Invalid or unsupported COSE protected header"),
            VerifyError::UnsupportedAlgorithm => String::from_str("Unsupported COSE signature algorithm"),
            VerifyError::AlgorithmInUnprotectedHeader => String::from_str("COSE algorithm must not appear in the unprotected header"),
            VerifyError::UnsupportedAttestationType => String::from_str("Unsupported attestation type"),
            VerifyError::InvalidTimestamp => String::from_str("Invalid timestamp"),
            VerifyError::ExpiredReceipt => String::from_str("Receipt timestamp is outside the accepted age window"),
            VerifyError::SequenceNumberExhausted => String::from_str("Receipt sequence number space is exhausted"),
            VerifyError::InvalidPcrLength => String::from_str("Expected PCR0 value must be 48 bytes"),
        }
    }
}

} // verus!
