//! The standalone SDK verifier: the same receipt checks as the service
//! verifier, reported as a single error, with the certificate chain
//! accepted when it reaches any trusted root.

use vstd::prelude::*;
use crate::attestation::{nsm_attestation, nsm_close, nsm_open};
use crate::claims::{decode_claims, spec_decode_claims};
use crate::cose::{decode_sign1, sig_structure, spec_decode_sign1, spec_sig_structure};
use crate::crypto::{
    p384_der_sig_check, p384_key_check, p384_raw_sig_check, p384_verify_der, p384_verify_raw,
    spec_p384_der_sig_ok, spec_p384_key_ok, spec_p384_raw_sig_ok, spec_p384_verify_der,
    spec_p384_verify_raw, unix_time_now,
};
use crate::doc::{decode_doc, spec_decode_doc};
use crate::text::bytes_eq;
use crate::types::{AttestationDoc, ClaimsModel, DocModel, VeriClaims, bundle_view, pcr_lookup};
use crate::verify::{
    abs, compute_identity_fingerprint, compute_report_data, find_pcr, lemma_state_absent,
    lemma_state_found, lemma_state_update, signature_ok, spec_identity_fingerprint,
    spec_report_data, spec_signature_ok, state_find, state_map,
};
use crate::x509::{CertInfo, CertView, read_certificate, spec_read_certificate};

verus! {

/// Why the SDK verifier rejected a receipt.
#[derive(Debug, Clone, Copy, PartialEq, Eq)]
pub enum VerifyError {
    InvalidCoseSignature,
    InvalidAttestationDocument,
    AttestationDocTimestampMismatch,
    PcrMismatch,
    PubkeyBindingMismatch,
    ReportDataMismatch,
    TimestampSkewExceeded,
    ModelHashMismatch,
    InputHashMismatch,
    OutputHashMismatch,
    NonceMismatch,
    SequenceNumberOutOfOrder,
    EnclaveIdentityChanged,
    MalformedReceipt,
}

/// The message of an SDK verification error.
pub open spec fn spec_sdk_message(e: VerifyError) -> Seq<char> {
    match e {
        VerifyError::InvalidCoseSignature => "Invalid COSE signature"@,
        VerifyError::InvalidAttestationDocument => "Invalid attestation document signature or structure"@,
        VerifyError::AttestationDocTimestampMismatch => "Attestation document timestamp mismatch with payload timestamp"@,
        VerifyError::PcrMismatch => "PCR0 value does not match expected value"@,
        VerifyError::PubkeyBindingMismatch => "Enclave ephemeral public key does not match claim 6012"@,
        VerifyError::ReportDataMismatch => "REPORTDATA (user_data) does not match SHA-512 binding hash of public key"@,
        VerifyError::TimestampSkewExceeded => "Timestamp skew exceeds 5-minute skew tolerance"@,
        VerifyError::ModelHashMismatch => "Model hash does not match expected value"@,
        VerifyError::InputHashMismatch => "Input hash does not match expected value"@,
        VerifyError::OutputHashMismatch => "Output hash does not match expected value"@,
        VerifyError::NonceMismatch => "Client nonce does not match Nitro document nonce"@,
        VerifyError::SequenceNumberOutOfOrder => "Sequence number is out of order (not monotonic)"@,
        VerifyError::EnclaveIdentityChanged => "Enclave identity fingerprint changed on stateful verifier"@,
        VerifyError::MalformedReceipt => "Malformed receipt structure"@,
    }
}

impl VerifyError {
    /// The error's message.
    pub fn message(&self) -> (r: &'static str)
        ensures
            r@ == spec_sdk_message(*self),
    {
        match self {
            VerifyError::InvalidCoseSignature => "Invalid COSE signature",
            VerifyError::InvalidAttestationDocument => "Invalid attestation document signature or structure",
            VerifyError::AttestationDocTimestampMismatch => "Attestation document timestamp mismatch with payload timestamp",
            VerifyError::PcrMismatch => "PCR0 value does not match expected value",
            VerifyError::PubkeyBindingMismatch => "Enclave ephemeral public key does not match claim 6012",
            VerifyError::ReportDataMismatch => "REPORTDATA (user_data) does not match SHA-512 binding hash of public key",
            VerifyError::TimestampSkewExceeded => "Timestamp skew exceeds 5-minute skew tolerance",
            VerifyError::ModelHashMismatch => "Model hash does not match expected value",
            VerifyError::InputHashMismatch => "Input hash does not match expected value",
            VerifyError::OutputHashMismatch => "Output hash does not match expected value",
            VerifyError::NonceMismatch => "Client nonce does not match Nitro document nonce",
            VerifyError::SequenceNumberOutOfOrder => "Sequence number is out of order (not monotonic)",
            VerifyError::EnclaveIdentityChanged => "Enclave identity fingerprint changed on stateful verifier",
            VerifyError::MalformedReceipt => "Malformed receipt structure",
        }
    }
}

/// The chain walk: through the CA bundle in its order, each certificate
/// verifying the previous one's signature, until one is a trusted root.
/// `None` where a certificate or signature cannot be read or verified.
pub open spec fn spec_sdk_walk(bundle: Seq<Seq<u8>>, i: nat, current: CertView, roots: Seq<Seq<u8>>) -> Option<bool>
    decreases bundle.len() - i,
{
    if i >= bundle.len() {
        Some(roots.contains(current.der))
    } else {
        match spec_read_certificate(bundle[i as int]) {
            None => None,
            Some(parent) => if !spec_p384_key_ok(parent.public_key) || !spec_p384_der_sig_ok(
                current.signature,
            ) || !spec_p384_verify_der(parent.public_key, current.tbs, current.signature) {
                None
            } else if roots.contains(parent.der) {
                Some(true)
            } else {
                spec_sdk_walk(bundle, i + 1, parent, roots)
            },
        }
    }
}

/// The receipt's claims and attestation document, once its envelope, its
/// signature and the document's signature and chain are accepted.
pub open spec fn spec_sdk_parse(roots: Seq<Seq<u8>>, receipt: Seq<u8>) -> Result<(ClaimsModel, DocModel), VerifyError> {
    match spec_decode_sign1(receipt) {
        None => Err(VerifyError::MalformedReceipt),
        Some(m) => match m.payload {
            None => Err(VerifyError::MalformedReceipt),
            Some(payload) => match spec_decode_claims(payload) {
                Err(_) => Err(VerifyError::MalformedReceipt),
                Ok(c) => if !spec_signature_ok(m, payload, c.enclave_pubkey) {
                    Err(VerifyError::InvalidCoseSignature)
                } else {
                    match spec_decode_sign1(c.attestation_report) {
                        None => Err(VerifyError::InvalidAttestationDocument),
                        Some(a) => match a.payload {
                            None => Err(VerifyError::InvalidAttestationDocument),
                            Some(ap) => match spec_decode_doc(ap) {
                                Err(_) => Err(VerifyError::InvalidAttestationDocument),
                                Ok(d) => match spec_read_certificate(d.certificate) {
                                    None => Err(VerifyError::InvalidAttestationDocument),
                                    Some(leaf) => if !spec_p384_key_ok(leaf.public_key)
                                        || !spec_p384_raw_sig_ok(a.signature)
                                        || !spec_p384_verify_raw(
                                        leaf.public_key,
                                        spec_sig_structure(a.protected_bytes, ap),
                                        a.signature,
                                    ) {
                                        Err(VerifyError::InvalidAttestationDocument)
                                    } else if spec_sdk_walk(d.cabundle, 0, leaf, roots) != Some(true) {
                                        Err(VerifyError::InvalidAttestationDocument)
                                    } else {
                                        Ok((c, d))
                                    },
                                },
                            },
                        },
                    }
                },
            },
        },
    }
}

/// The checks against the clock and the expected values.
pub open spec fn spec_sdk_checks(
    c: ClaimsModel,
    d: DocModel,
    model: Seq<u8>,
    input: Seq<u8>,
    output: Seq<u8>,
    nonce: Seq<u8>,
    pcr0: Seq<u8>,
    now: Option<u64>,
) -> Result<(), VerifyError> {
    match now {
        None => Err(VerifyError::InvalidAttestationDocument),
        Some(t) => {
            let now_sec = t as i64;
            let doc_sec = (d.timestamp / 1000) as i64;
            if abs(now_sec - doc_sec) > 300 || abs(now_sec - c.attestation_timestamp) > 300 {
                Err(VerifyError::TimestampSkewExceeded)
            } else if abs(doc_sec - c.attestation_timestamp) > 5 {
                Err(VerifyError::AttestationDocTimestampMismatch)
            } else if pcr_lookup(d.pcrs, 0) != Some(pcr0) {
                Err(VerifyError::PcrMismatch)
            } else if d.public_key != Some(c.enclave_pubkey) {
                Err(VerifyError::PubkeyBindingMismatch)
            } else if d.user_data != Some(spec_report_data(c.enclave_pubkey)) {
                Err(VerifyError::ReportDataMismatch)
            } else if d.nonce != Some(nonce) || c.client_nonce != nonce {
                Err(VerifyError::NonceMismatch)
            } else if c.model_hash != model {
                Err(VerifyError::ModelHashMismatch)
            } else if c.input_hash != input {
                Err(VerifyError::InputHashMismatch)
            } else if c.output_hash != output {
                Err(VerifyError::OutputHashMismatch)
            } else {
                Ok(())
            }
        },
    }
}

/// The verdict and the next sequence state, given the clock.
pub open spec fn spec_sdk_verify(
    roots: Seq<Seq<u8>>,
    receipt: Seq<u8>,
    model: Seq<u8>,
    input: Seq<u8>,
    output: Seq<u8>,
    nonce: Seq<u8>,
    pcr0: Seq<u8>,
    now: Option<u64>,
    state: Option<Map<Seq<u8>, u64>>,
) -> (Result<(), VerifyError>, Option<Map<Seq<u8>, u64>>) {
    match spec_sdk_parse(roots, receipt) {
        Err(e) => (Err(e), state),
        Ok((c, d)) => match spec_sdk_checks(c, d, model, input, output, nonce, pcr0, now) {
            Err(e) => (Err(e), state),
            Ok(()) => match state {
                None => (Ok(()), None),
                Some(m) => {
                    let fp = spec_identity_fingerprint(d);
                    if m.contains_key(fp) && c.sequence_num <= m[fp] {
                        (Err(VerifyError::SequenceNumberOutOfOrder), state)
                    } else {
                        (Ok(()), Some(m.insert(fp, c.sequence_num)))
                    }
                },
            },
        },
    }
}

/// The SDK's stateful verifier refuses only replays: a receipt that the
/// stateless verifier accepts is accepted by a stateful one whose state
/// holds nothing for its enclave identity, or a lower sequence number,
/// whatever the gap; and the state then records its sequence number.
pub proof fn lemma_sdk_accepts_any_higher_sequence(
    roots: Seq<Seq<u8>>,
    receipt: Seq<u8>,
    model: Seq<u8>,
    input: Seq<u8>,
    output: Seq<u8>,
    nonce: Seq<u8>,
    pcr0: Seq<u8>,
    now: Option<u64>,
    state: Map<Seq<u8>, u64>,
)
    requires
        spec_sdk_verify(roots, receipt, model, input, output, nonce, pcr0, now, None).0 is Ok,
        spec_sdk_parse(roots, receipt) matches Ok((c, d)) && (state.contains_key(spec_identity_fingerprint(d))
            ==> state[spec_identity_fingerprint(d)] < c.sequence_num),
    ensures
        spec_sdk_verify(roots, receipt, model, input, output, nonce, pcr0, now, Some(state)).0 is Ok,
        spec_sdk_parse(roots, receipt) matches Ok((c, d)) && spec_sdk_verify(
            roots,
            receipt,
            model,
            input,
            output,
            nonce,
            pcr0,
            now,
            Some(state),
        ).1 == Some(state.insert(spec_identity_fingerprint(d), c.sequence_num)),
{
}

/// The SDK's stateful verifier accepts a receipt at most once: whatever
/// the clock reads the second time, the state that accepting it left makes
/// the same receipt fail.
pub proof fn lemma_sdk_replay_rejected(
    roots: Seq<Seq<u8>>,
    receipt: Seq<u8>,
    model: Seq<u8>,
    input: Seq<u8>,
    output: Seq<u8>,
    nonce: Seq<u8>,
    pcr0: Seq<u8>,
    now1: Option<u64>,
    now2: Option<u64>,
    state: Map<Seq<u8>, u64>,
)
    requires
        spec_sdk_verify(roots, receipt, model, input, output, nonce, pcr0, now1, Some(state)).0 is Ok,
    ensures
        spec_sdk_verify(
            roots,
            receipt,
            model,
            input,
            output,
            nonce,
            pcr0,
            now2,
            spec_sdk_verify(roots, receipt, model, input, output, nonce, pcr0, now1, Some(state)).1,
        ).0 is Err,
{
}

fn roots_contain(roots: &Vec<Vec<u8>>, der: &[u8]) -> (r: bool)
    ensures
        r == bundle_view(roots@).contains(der@),
{
    let ghost v = bundle_view(roots@);
    let mut i: usize = 0;
    while i < roots.len()
        invariant
            i <= roots@.len(),
            v == bundle_view(roots@),
            forall|j: int| 0 <= j < i ==> v[j] != der@,
        decreases roots.len() - i,
    {
        if bytes_eq(roots[i].as_slice(), der) {
            assert(v[i as int] == der@);
            return true;
        }
        i = i + 1;
    }
    false
}

fn sdk_step(current: &CertInfo, der: &[u8], roots: &Vec<Vec<u8>>) -> (r: Option<(bool, CertInfo)>)
    ensures
        match r {
            None => spec_read_certificate(der@) is None || ({
                let p = spec_read_certificate(der@)->Some_0;
                !spec_p384_key_ok(p.public_key) || !spec_p384_der_sig_ok(current@.signature)
                    || !spec_p384_verify_der(p.public_key, current@.tbs, current@.signature)
            }),
            Some((found, p)) => spec_read_certificate(der@) == Some(p@) && spec_p384_key_ok(
                p@.public_key,
            ) && spec_p384_der_sig_ok(current@.signature) && spec_p384_verify_der(
                p@.public_key,
                current@.tbs,
                current@.signature,
            ) && found == bundle_view(roots@).contains(p@.der),
        },
{
    let parent = match read_certificate(der) {
        Err(_) => return None,
        Ok(c) => c,
    };
    if p384_key_check(parent.public_key.as_slice()).is_err() || p384_der_sig_check(
        current.signature.as_slice(),
    ).is_err() || p384_verify_der(
        parent.public_key.as_slice(),
        current.tbs.as_slice(),
        current.signature.as_slice(),
    ).is_err() {
        return None;
    }
    let found = roots_contain(roots, parent.der.as_slice());
    Some((found, parent))
}

#[verifier::loop_isolation(false)]
fn sdk_walk(bundle: &Vec<Vec<u8>>, leaf: CertInfo, roots: &Vec<Vec<u8>>) -> (r: bool)
    ensures
        r == (spec_sdk_walk(bundle_view(bundle@), 0, leaf@, bundle_view(roots@)) == Some(true)),
{
    let ghost b = bundle_view(bundle@);
    let ghost start = spec_sdk_walk(b, 0, leaf@, bundle_view(roots@));
    let n = bundle.len();
    let mut current = leaf;
    let mut i: usize = 0;
    while i < n
        invariant
            n == bundle@.len(),
            b == bundle_view(bundle@),
            i <= n,
            start == spec_sdk_walk(b, i as nat, current@, bundle_view(roots@)),
        decreases n - i,
    {
        assert(b[i as int] == bundle@[i as int]@);
        match sdk_step(&current, bundle[i].as_slice(), roots) {
            None => return false,
            Some((found, p)) => {
                if found {
                    return true;
                }
                current = p;
            },
        }
        i = i + 1;
    }
    roots_contain(roots, current.der.as_slice())
}

fn sdk_parse(roots: &Vec<Vec<u8>>, receipt: &[u8]) -> (r: Result<(VeriClaims, AttestationDoc), VerifyError>)
    ensures
        match r {
            Ok((c, d)) => spec_sdk_parse(bundle_view(roots@), receipt@) == Ok::<(ClaimsModel, DocModel), VerifyError>((c@, d@)),
            Err(e) => spec_sdk_parse(bundle_view(roots@), receipt@) == Err::<(ClaimsModel, DocModel), VerifyError>(e),
        },
{
    let m = match decode_sign1(receipt) {
        None => return Err(VerifyError::MalformedReceipt),
        Some(m) => m,
    };
    let payload = match &m.payload {
        None => return Err(VerifyError::MalformedReceipt),
        Some(p) => p,
    };
    let c = match decode_claims(payload.as_slice()) {
        Err(_) => return Err(VerifyError::MalformedReceipt),
        Ok(c) => c,
    };
    if !signature_ok(&m, payload.as_slice(), &c.enclave_pubkey) {
        return Err(VerifyError::InvalidCoseSignature);
    }
    let a = match decode_sign1(c.attestation_report.as_slice()) {
        None => return Err(VerifyError::InvalidAttestationDocument),
        Some(a) => a,
    };
    let ap = match &a.payload {
        None => return Err(VerifyError::InvalidAttestationDocument),
        Some(p) => p,
    };
    let d = match decode_doc(ap.as_slice()) {
        Err(_) => return Err(VerifyError::InvalidAttestationDocument),
        Ok(d) => d,
    };
    let leaf = match read_certificate(d.certificate.as_slice()) {
        Err(_) => return Err(VerifyError::InvalidAttestationDocument),
        Ok(l) => l,
    };
    let tbs = sig_structure(a.protected_bytes.as_slice(), ap.as_slice());
    if p384_key_check(leaf.public_key.as_slice()).is_err() || p384_raw_sig_check(
        a.signature.as_slice(),
    ).is_err() || p384_verify_raw(leaf.public_key.as_slice(), tbs.as_slice(), a.signature.as_slice()).is_err() {
        return Err(VerifyError::InvalidAttestationDocument);
    }
    if !sdk_walk(&d.cabundle, leaf, roots) {
        return Err(VerifyError::InvalidAttestationDocument);
    }
    Ok((c, d))
}

/// |a - b| of two `i64`s.
fn distance(a: i64, b: i64) -> (r: u64)
    ensures
        r as int == abs(a - b),
{
    if a >= b {
        let d: i128 = a as i128 - b as i128;
        d as u64
    } else {
        let d: i128 = b as i128 - a as i128;
        d as u64
    }
}

fn sdk_checks(
    c: &VeriClaims,
    d: &AttestationDoc,
    model: &[u8; 32],
    input: &[u8; 32],
    output: &[u8; 32],
    nonce: &[u8; 32],
    pcr0: &[u8],
    now: Option<u64>,
) -> (r: Result<(), VerifyError>)
    ensures
        r == spec_sdk_checks(c@, d@, model@, input@, output@, nonce@, pcr0@, now),
{
    let t = match now {
        None => return Err(VerifyError::InvalidAttestationDocument),
        Some(t) => t,
    };
    let now_sec = t as i64;
    let doc_sec = (d.timestamp / 1000) as i64;
    if distance(now_sec, doc_sec) > 300 || distance(now_sec, c.attestation_timestamp) > 300 {
        return Err(VerifyError::TimestampSkewExceeded);
    }
    if distance(doc_sec, c.attestation_timestamp) > 5 {
        return Err(VerifyError::AttestationDocTimestampMismatch);
    }
    let pcr_ok = match find_pcr(&d.pcrs, 0) {
        Some(v) => bytes_eq(v.as_slice(), pcr0),
        None => false,
    };
    if !pcr_ok {
        return Err(VerifyError::PcrMismatch);
    }
    let pk_ok = match &d.public_key {
        Some(k) => bytes_eq(k.as_slice(), &c.enclave_pubkey),
        None => false,
    };
    if !pk_ok {
        return Err(VerifyError::PubkeyBindingMismatch);
    }
    let expected = compute_report_data(&c.enclave_pubkey);
    let ud_ok = match &d.user_data {
        Some(u) => bytes_eq(u.as_slice(), &expected),
        None => false,
    };
    if !ud_ok {
        return Err(VerifyError::ReportDataMismatch);
    }
    let nonce_ok = match &d.nonce {
        Some(n) => bytes_eq(n.as_slice(), nonce),
        None => false,
    };
    if !nonce_ok || !bytes_eq(&c.client_nonce, nonce) {
        return Err(VerifyError::NonceMismatch);
    }
    if !bytes_eq(&c.model_hash, model) {
        return Err(VerifyError::ModelHashMismatch);
    }
    if !bytes_eq(&c.input_hash, input) {
        return Err(VerifyError::InputHashMismatch);
    }
    if !bytes_eq(&c.output_hash, output) {
        return Err(VerifyError::OutputHashMismatch);
    }
    Ok(())
}

/// Fetches an attestation document from the Nitro Secure Module
/// (`/dev/nsm`) for the given user data, nonce and public key.
pub fn get_attestation_document(
    user_data: Option<&[u8]>,
    nonce: Option<&[u8]>,
    public_key: Option<&[u8]>,
) -> (r: Result<Vec<u8>, String>)
    ensures
        r matches Err(m) ==> {
            ||| m@ == "Failed to initialize NSM driver"@
            ||| exists|code: Seq<char>| m@ == #[trigger] ("NSM driver error: "@ + code)
            ||| m@ == "Unexpected response from NSM driver"@
        },
{
    let fd = nsm_open();
    if fd < 0 {
        return Err(String::from_str("Failed to initialize NSM driver"));
    }
    let response = nsm_attestation(fd, user_data, nonce, public_key);
    nsm_close(fd);
    match response {
        Ok(d) => Ok(d),
        Err(Some(code)) => Err(String::from_str("NSM driver error: ").concat(code.as_str())),
        Err(None) => Err(String::from_str("Unexpected response from NSM driver")),
    }
}

/// The SDK's receipt verifier.
pub struct Verifier {
    /// DER-encoded trusted roots.
    trusted_roots: Vec<Vec<u8>>,
    stateful: bool,
    state: Vec<([u8; 32], u64)>,
}

impl Verifier {
    pub closed spec fn roots_view(&self) -> Seq<Seq<u8>> {
        bundle_view(self.trusted_roots@)
    }

    pub closed spec fn state_view(&self) -> Option<Map<Seq<u8>, u64>> {
        if self.stateful {
            Some(state_map(self.state@))
        } else {
            None
        }
    }

    /// A verifier trusting the DER certificates `trusted_roots`.
    pub fn new(trusted_roots: Vec<Vec<u8>>, stateful: bool) -> (v: Self)
        ensures
            v.roots_view() == bundle_view(trusted_roots@),
            v.state_view() == (if stateful {
                Some(Map::<Seq<u8>, u64>::empty())
            } else {
                None
            }),
    {
        let state: Vec<([u8; 32], u64)> = Vec::new();
        assert(state_map(state@) =~= Map::<Seq<u8>, u64>::empty());
        Verifier { trusted_roots, stateful, state }
    }

    /// A verifier trusting the certificates of a PEM text.
    pub fn from_pem(pem_str: &str, stateful: bool) -> (r: Result<Self, String>)
        ensures
            match r {
                Ok(v) => crate::pem::spec_pem_certs(crate::pem::spec_lines(pem_str@), Seq::empty(), Seq::empty(), false)
                    == Ok::<Seq<Seq<u8>>, crate::pem::TextFailure>(v.roots_view()) && v.state_view() == (
                if stateful {
                    Some(Map::<Seq<u8>, u64>::empty())
                } else {
                    None
                }),
                Err(m) => crate::pem::spec_pem_certs(crate::pem::spec_lines(pem_str@), Seq::empty(), Seq::empty(), false)
                    matches Err(f) && crate::pem::text_failure_matches(f, m@),
            },
    {
        match crate::pem::pem_certificates(pem_str) {
            Err(m) => Err(m),
            Ok(roots) => Ok(Self::new(roots, stateful)),
        }
    }

    /// Verifies a receipt with the clock reading `now` (whole seconds since
    /// the epoch, `None` when it reads before it).
    pub fn verify_at(
        &mut self,
        receipt_bytes: &[u8],
        expected_model_hash: [u8; 32],
        expected_input_hash: [u8; 32],
        expected_output_hash: [u8; 32],
        expected_nonce: [u8; 32],
        expected_pcr0: &[u8],
        now: Option<u64>,
    ) -> (r: Result<(), VerifyError>)
        ensures
            (r, final(self).state_view()) == spec_sdk_verify(
                old(self).roots_view(),
                receipt_bytes@,
                expected_model_hash@,
                expected_input_hash@,
                expected_output_hash@,
                expected_nonce@,
                expected_pcr0@,
                now,
                old(self).state_view(),
            ),
            final(self).roots_view() == old(self).roots_view(),
    {
        let (c, d) = match sdk_parse(&self.trusted_roots, receipt_bytes) {
            Err(e) => return Err(e),
            Ok(x) => x,
        };
        match sdk_checks(
            &c,
            &d,
            &expected_model_hash,
            &expected_input_hash,
            &expected_output_hash,
            &expected_nonce,
            expected_pcr0,
            now,
        ) {
            Err(e) => return Err(e),
            Ok(()) => {},
        }
        if !self.stateful {
            return Ok(());
        }
        let fp = compute_identity_fingerprint(&d);
        match state_find(&self.state, &fp) {
            Some(i) => {
                proof {
                    lemma_state_found(self.state@, fp@, i as int);
                }
                if c.sequence_num <= self.state[i].1 {
                    return Err(VerifyError::SequenceNumberOutOfOrder);
                }
                proof {
                    lemma_state_update(self.state@, fp, c.sequence_num, i as int);
                }
                self.state.set(i, (fp, c.sequence_num));
            },
            None => {
                proof {
                    lemma_state_absent(self.state@, fp@);
                }
                let ghost before = self.state@;
                self.state.push((fp, c.sequence_num));
                assert(self.state@.drop_last() =~= before);
            },
        }
        Ok(())
    }

    /// Verifies a receipt against the system clock.
    pub fn verify(
        &mut self,
        receipt_bytes: &[u8],
        expected_model_hash: [u8; 32],
        expected_input_hash: [u8; 32],
        expected_output_hash: [u8; 32],
        expected_nonce: [u8; 32],
        expected_pcr0: &[u8],
    ) -> (r: Result<(), VerifyError>)
        ensures
            exists|now: Option<u64>|
                (r, final(self).state_view()) == #[trigger] spec_sdk_verify(
                    old(self).roots_view(),
                    receipt_bytes@,
                    expected_model_hash@,
                    expected_input_hash@,
                    expected_output_hash@,
                    expected_nonce@,
                    expected_pcr0@,
                    now,
                    old(self).state_view(),
                ),
            final(self).roots_view() == old(self).roots_view(),
    {
        let now = match unix_time_now() {
            Some((s, _n)) => Some(s),
            None => None,
        };
        self.verify_at(
            receipt_bytes,
            expected_model_hash,
            expected_input_hash,
            expected_output_hash,
            expected_nonce,
            expected_pcr0,
            now,
        )
    }
}

} // verus!
