//! The data that receipts carry: the CWT claim set, the Nitro attestation
//! document, and the structured verification result.

use vstd::prelude::*;

verus! {

pub const CLAIM_MODEL_HASH: i64 = 6000;
pub const CLAIM_INPUT_HASH: i64 = 6001;
pub const CLAIM_OUTPUT_HASH: i64 = 6002;
pub const CLAIM_CLIENT_NONCE: i64 = 6003;
pub const CLAIM_SEQUENCE_NUM: i64 = 6004;
pub const CLAIM_ATTESTATION_REPORT: i64 = 6005;
pub const CLAIM_ATTESTATION_TYPE: i64 = 6006;
pub const CLAIM_ATTESTATION_TIMESTAMP: i64 = 6007;
pub const CLAIM_SDK_VERSION: i64 = 6011;
pub const CLAIM_ENCLAVE_PUBKEY: i64 = 6012;

/// The attestation type of AWS Nitro Enclaves.
pub const ATTESTATION_TYPE_NITRO: u64 = 3;

/// The VeriAI claims of a receipt (a CWT claims set).
#[derive(Debug, Clone, PartialEq, Eq)]
pub struct VeriClaims {
    pub model_hash: [u8; 32],
    pub input_hash: [u8; 32],
    pub output_hash: [u8; 32],
    pub client_nonce: [u8; 32],
    pub sequence_num: u64,
    pub attestation_report: Vec<u8>,
    pub attestation_type: u64,
    pub attestation_timestamp: i64,
    pub sdk_version: String,
    pub enclave_pubkey: [u8; 32],
}

/// Mathematical model of [`VeriClaims`].
pub struct ClaimsModel {
    pub model_hash: Seq<u8>,
    pub input_hash: Seq<u8>,
    pub output_hash: Seq<u8>,
    pub client_nonce: Seq<u8>,
    pub sequence_num: u64,
    pub attestation_report: Seq<u8>,
    pub attestation_type: u64,
    pub attestation_timestamp: i64,
    pub sdk_version: Seq<char>,
    pub enclave_pubkey: Seq<u8>,
}

impl View for VeriClaims {
    type V = ClaimsModel;

    open spec fn view(&self) -> ClaimsModel {
        ClaimsModel {
            model_hash: self.model_hash@,
            input_hash: self.input_hash@,
            output_hash: self.output_hash@,
            client_nonce: self.client_nonce@,
            sequence_num: self.sequence_num,
            attestation_report: self.attestation_report@,
            attestation_type: self.attestation_type,
            attestation_timestamp: self.attestation_timestamp,
            sdk_version: self.sdk_version@,
            enclave_pubkey: self.enclave_pubkey@,
        }
    }
}

impl ClaimsModel {
    /// Every hash, nonce and key claim is 32 bytes long.
    pub open spec fn wf(self) -> bool {
        &&& self.model_hash.len() == 32
        &&& self.input_hash.len() == 32
        &&& self.output_hash.len() == 32
        &&& self.client_nonce.len() == 32
        &&& self.enclave_pubkey.len() == 32
    }
}

/// AWS Nitro Enclaves attestation document.
///
/// `pcrs` holds the platform configuration registers as (index, value)
/// pairs; a document read from CBOR holds them in strictly ascending index
/// order, each index once.
#[derive(Debug, Clone, PartialEq, Eq)]
pub struct AttestationDoc {
    pub module_id: String,
    pub timestamp: u64,
    pub digest: String,
    pub pcrs: Vec<(u32, Vec<u8>)>,
    pub certificate: Vec<u8>,
    pub cabundle: Vec<Vec<u8>>,
    pub public_key: Option<Vec<u8>>,
    pub user_data: Option<Vec<u8>>,
    pub nonce: Option<Vec<u8>>,
}

/// Mathematical model of [`AttestationDoc`].
pub struct DocModel {
    pub module_id: Seq<char>,
    pub timestamp: u64,
    pub digest: Seq<char>,
    pub pcrs: Seq<(u32, Seq<u8>)>,
    pub certificate: Seq<u8>,
    pub cabundle: Seq<Seq<u8>>,
    pub public_key: Option<Seq<u8>>,
    pub user_data: Option<Seq<u8>>,
    pub nonce: Option<Seq<u8>>,
}

pub open spec fn opt_bytes_view(o: Option<Vec<u8>>) -> Option<Seq<u8>> {
    match o {
        Some(v) => Some(v@),
        None => None,
    }
}

pub open spec fn pcrs_view(p: Seq<(u32, Vec<u8>)>) -> Seq<(u32, Seq<u8>)> {
    p.map_values(|e: (u32, Vec<u8>)| (e.0, e.1@))
}

pub open spec fn bundle_view(b: Seq<Vec<u8>>) -> Seq<Seq<u8>> {
    b.map_values(|c: Vec<u8>| c@)
}

impl View for AttestationDoc {
    type V = DocModel;

    open spec fn view(&self) -> DocModel {
        DocModel {
            module_id: self.module_id@,
            timestamp: self.timestamp,
            digest: self.digest@,
            pcrs: pcrs_view(self.pcrs@),
            certificate: self.certificate@,
            cabundle: bundle_view(self.cabundle@),
            public_key: opt_bytes_view(self.public_key),
            user_data: opt_bytes_view(self.user_data),
            nonce: opt_bytes_view(self.nonce),
        }
    }
}

/// PCR indices strictly ascending.
pub open spec fn pcrs_sorted(p: Seq<(u32, Seq<u8>)>) -> bool {
    forall|i: int, j: int| 0 <= i < j < p.len() ==> p[i].0 < p[j].0
}

/// Value of PCR `index`, if the document has one.
pub open spec fn pcr_lookup(p: Seq<(u32, Seq<u8>)>, index: u32) -> Option<Seq<u8>>
    decreases p.len(),
{
    if p.len() == 0 {
        None
    } else if p[0].0 == index {
        Some(p[0].1)
    } else {
        pcr_lookup(p.drop_first(), index)
    }
}

impl DocModel {
    pub open spec fn wf(self) -> bool {
        pcrs_sorted(self.pcrs)
    }
}

/// The outcome of one verification step.
#[derive(Debug, Clone, PartialEq, Eq)]
pub struct VerificationCheck {
    pub name: String,
    /// `passed` or `failed`.
    pub status: String,
    pub details: Option<String>,
}

/// Mathematical model of [`VerificationCheck`].
pub struct CheckView {
    pub name: Seq<char>,
    pub status: Seq<char>,
    pub details: Option<Seq<char>>,
}

impl View for VerificationCheck {
    type V = CheckView;

    open spec fn view(&self) -> CheckView {
        CheckView {
            name: self.name@,
            status: self.status@,
            details: match self.details {
                Some(d) => Some(d@),
                None => None,
            },
        }
    }
}

/// What a verified receipt claims, for display.
#[derive(Debug, Clone, PartialEq, Eq)]
pub struct ReceiptInfo {
    pub version: String,
    pub model_hash: String,
    pub input_hash: String,
    pub output_hash: String,
    pub sequence_num: u64,
    pub timestamp: i64,
}

/// Mathematical model of [`ReceiptInfo`].
pub struct ReceiptInfoView {
    pub version: Seq<char>,
    pub model_hash: Seq<char>,
    pub input_hash: Seq<char>,
    pub output_hash: Seq<char>,
    pub sequence_num: u64,
    pub timestamp: i64,
}

impl View for ReceiptInfo {
    type V = ReceiptInfoView;

    open spec fn view(&self) -> ReceiptInfoView {
        ReceiptInfoView {
            version: self.version@,
            model_hash: self.model_hash@,
            input_hash: self.input_hash@,
            output_hash: self.output_hash@,
            sequence_num: self.sequence_num,
            timestamp: self.timestamp,
        }
    }
}

/// The structured result of verifying a receipt.
#[derive(Debug, Clone, PartialEq, Eq)]
pub struct VerificationResult {
    pub valid: bool,
    pub receipt: Option<ReceiptInfo>,
    pub checks: Vec<VerificationCheck>,
    pub attestation_provider: String,
    pub verified_hardware: bool,
    pub error: Option<String>,
}

/// Mathematical model of [`VerificationResult`].
pub struct ResultView {
    pub valid: bool,
    pub receipt: Option<ReceiptInfoView>,
    pub checks: Seq<CheckView>,
    pub attestation_provider: Seq<char>,
    pub verified_hardware: bool,
    pub error: Option<Seq<char>>,
}

pub open spec fn checks_view(c: Seq<VerificationCheck>) -> Seq<CheckView> {
    c.map_values(|x: VerificationCheck| x@)
}

impl View for VerificationResult {
    type V = ResultView;

    open spec fn view(&self) -> ResultView {
        ResultView {
            valid: self.valid,
            receipt: match self.receipt {
                Some(r) => Some(r@),
                None => None,
            },
            checks: checks_view(self.checks@),
            attestation_provider: self.attestation_provider@,
            verified_hardware: self.verified_hardware,
            error: match self.error {
                Some(e) => Some(e@),
                None => None,
            },
        }
    }
}

} // verus!
