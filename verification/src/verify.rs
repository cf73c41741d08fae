//! The receipt verifier: checks a receipt's COSE envelope, its claims, its
//! signature, the enclosed attestation document and the expected values,
//! and (when stateful) that sequence numbers of one enclave identity only
//! increase.

use vstd::prelude::*;
use vstd::utf8::*;
use crate::attestation::{AttestationProvider, verdict_view};
use crate::error::AttestationErrorView;
use crate::claims::{decode_claims, spec_decode_claims};
use crate::cose::{
    ALG_EDDSA, CoseAlg, CoseSign1, Sign1View, decode_sign1, sig_structure, spec_decode_sign1,
    spec_sig_structure,
};
use crate::crypto::{
    ed25519_verify, hex_encode, sha256, sha512, spec_ed25519_verify, spec_hex, spec_sha256,
    spec_sha512, unix_time_now,
};
use crate::doc::{decode_doc, spec_decode_doc};
use crate::error::{VerifyError, VerifyErrorView, spec_verify_message};
use crate::text::{
    bytes_eq, claims_version_str, push_decimal, push_int_text, spec_claims_version, spec_decimal,
    spec_int_text,
};
use crate::types::{
    AttestationDoc, CheckView, ClaimsModel, DocModel, ReceiptInfo, ReceiptInfoView, ResultView,
    VeriClaims, VerificationCheck, VerificationResult, ATTESTATION_TYPE_NITRO, checks_view,
    pcr_lookup,
};

verus! {

/// Limits that a verifier applies.
#[derive(Debug, Clone, Copy, PartialEq, Eq)]
pub struct VerifierConfig {
    /// Largest accepted receipt, in bytes.
    pub max_receipt_size: usize,
    /// Largest accepted distance between the verifier's clock and the
    /// attestation document's, in seconds.
    pub max_clock_skew: i64,
    /// Largest accepted age of a receipt, in seconds.
    pub max_receipt_age: i64,
}

impl Default for VerifierConfig {
    /// 64 KiB receipts, five minutes of skew, five minutes of age.
    fn default() -> (c: Self)
        ensures
            c.max_receipt_size == 65536,
            c.max_clock_skew == 300,
            c.max_receipt_age == 300,
    {
        VerifierConfig { max_receipt_size: 65536, max_clock_skew: 300, max_receipt_age: 300 }
    }
}

/// The sequence state as a map from identity fingerprint to the last
/// accepted sequence number; later entries override earlier ones.
pub open spec fn state_map(v: Seq<([u8; 32], u64)>) -> Map<Seq<u8>, u64>
    decreases v.len(),
{
    if v.len() == 0 {
        Map::empty()
    } else {
        state_map(v.drop_last()).insert(v.last().0@, v.last().1)
    }
}

pub(crate) proof fn lemma_state_absent(v: Seq<([u8; 32], u64)>, k: Seq<u8>)
    requires
        forall|j: int| 0 <= j < v.len() ==> v[j].0@ != k,
    ensures
        !state_map(v).contains_key(k),
    decreases v.len(),
{
    if v.len() > 0 {
        lemma_state_absent(v.drop_last(), k);
    }
}

pub(crate) proof fn lemma_state_found(v: Seq<([u8; 32], u64)>, k: Seq<u8>, i: int)
    requires
        0 <= i < v.len(),
        v[i].0@ == k,
        forall|j: int| i < j < v.len() ==> v[j].0@ != k,
    ensures
        state_map(v).contains_key(k),
        state_map(v)[k] == v[i].1,
    decreases v.len(),
{
    if i < v.len() - 1 {
        lemma_state_found(v.drop_last(), k, i);
    }
}

pub(crate) proof fn lemma_state_update(v: Seq<([u8; 32], u64)>, k: [u8; 32], s: u64, i: int)
    requires
        0 <= i < v.len(),
        v[i].0@ == k@,
        forall|j: int| i < j < v.len() ==> v[j].0@ != k@,
    ensures
        state_map(v.update(i, (k, s))) == state_map(v).insert(k@, s),
    decreases v.len(),
{
    let w = v.update(i, (k, s));
    if i == v.len() - 1 {
        assert(w.drop_last() =~= v.drop_last());
        assert(state_map(v).insert(k@, s) =~= state_map(v.drop_last()).insert(k@, s));
    } else {
        lemma_state_update(v.drop_last(), k, s, i);
        assert(w.drop_last() =~= v.drop_last().update(i, (k, s)));
        assert(state_map(w) =~= state_map(v).insert(k@, s));
    }
}

/// Index of the last entry for `key`, if any.
pub(crate) fn state_find(v: &Vec<([u8; 32], u64)>, key: &[u8; 32]) -> (r: Option<usize>)
    ensures
        match r {
            Some(i) => i < v@.len() && v@[i as int].0@ == key@ && (forall|j: int|
                i < j < v@.len() ==> v@[j].0@ != key@),
            None => forall|j: int| 0 <= j < v@.len() ==> v@[j].0@ != key@,
        },
{
    let mut i: usize = v.len();
    while i > 0
        invariant
            i <= v@.len(),
            forall|j: int| i <= j < v@.len() ==> v@[j].0@ != key@,
        decreases i,
    {
        if bytes_eq(&v[i - 1].0, key) {
            return Some(i - 1);
        }
        i = i - 1;
    }
    None
}

/// `0x01 || "VeriAI-KeyBind-v1"`: the prefix of the REPORTDATA binding.
pub open spec fn key_bind_prefix() -> Seq<u8> {
    seq![1u8] + encode_utf8("VeriAI-KeyBind-v1"@)
}

/// The REPORTDATA that binds an enclave public key:
/// `SHA-512(0x01 || "VeriAI-KeyBind-v1" || pubkey)`.
pub open spec fn spec_report_data(pubkey: Seq<u8>) -> Seq<u8> {
    spec_sha512(key_bind_prefix() + pubkey)
}

/// The REPORTDATA that binds an enclave public key.
pub fn compute_report_data(pubkey: &[u8; 32]) -> (r: [u8; 64])
    ensures
        r@ == spec_report_data(pubkey@),
{
    let mut buf: Vec<u8> = Vec::new();
    buf.push(1u8);
    buf.extend_from_slice("VeriAI-KeyBind-v1".as_bytes());
    buf.extend_from_slice(pubkey);
    assert(buf@ =~= key_bind_prefix() + pubkey@);
    sha512(buf.as_slice())
}

/// The value of a PCR, or no bytes when the document lacks it.
pub open spec fn pcr_or_empty(p: Seq<(u32, Seq<u8>)>, index: u32) -> Seq<u8> {
    match pcr_lookup(p, index) {
        Some(v) => v,
        None => Seq::empty(),
    }
}

/// All certificates of a bundle, one after the other.
pub open spec fn flatten(b: Seq<Seq<u8>>) -> Seq<u8>
    decreases b.len(),
{
    if b.len() == 0 {
        Seq::empty()
    } else {
        flatten(b.drop_last()) + b.last()
    }
}

/// The identity of an enclave: SHA-256 over PCR0, PCR3, PCR4, the module
/// id and the SHA-256 of its certificate followed by its CA bundle.
pub open spec fn spec_identity_fingerprint(d: DocModel) -> Seq<u8> {
    spec_sha256(
        pcr_or_empty(d.pcrs, 0) + pcr_or_empty(d.pcrs, 3) + pcr_or_empty(d.pcrs, 4) + encode_utf8(
            d.module_id,
        ) + spec_sha256(d.certificate + flatten(d.cabundle)),
    )
}

/// The value of PCR `index`, if the document has one.
pub fn find_pcr(pcrs: &Vec<(u32, Vec<u8>)>, index: u32) -> (r: Option<&Vec<u8>>)
    ensures
        match r {
            Some(v) => pcr_lookup(crate::types::pcrs_view(pcrs@), index) == Some(v@),
            None => pcr_lookup(crate::types::pcrs_view(pcrs@), index) is None,
        },
{
    let ghost p = crate::types::pcrs_view(pcrs@);
    let mut i: usize = 0;
    assert(p.skip(0) =~= p);
    while i < pcrs.len()
        invariant
            i <= pcrs@.len(),
            p == crate::types::pcrs_view(pcrs@),
            pcr_lookup(p, index) == pcr_lookup(p.skip(i as int), index),
        decreases pcrs.len() - i,
    {
        assert(p.skip(i as int).drop_first() =~= p.skip(i + 1));
        if pcrs[i].0 == index {
            return Some(&pcrs[i].1);
        }
        i = i + 1;
    }
    None
}

fn append_pcr(buf: &mut Vec<u8>, pcrs: &Vec<(u32, Vec<u8>)>, index: u32)
    ensures
        final(buf)@ == old(buf)@ + pcr_or_empty(crate::types::pcrs_view(pcrs@), index),
{
    match find_pcr(pcrs, index) {
        Some(v) => buf.extend_from_slice(v.as_slice()),
        None => {},
    }
    assert(final(buf)@ =~= old(buf)@ + pcr_or_empty(crate::types::pcrs_view(pcrs@), index));
}

/// The identity of the enclave that produced a document.
pub fn compute_identity_fingerprint(doc: &AttestationDoc) -> (r: [u8; 32])
    ensures
        r@ == spec_identity_fingerprint(doc@),
{
    let ghost d = doc@;
    let mut certs: Vec<u8> = Vec::new();
    certs.extend_from_slice(doc.certificate.as_slice());
    let mut i: usize = 0;
    assert(d.cabundle.take(0) =~= Seq::<Seq<u8>>::empty());
    assert(certs@ =~= d.certificate + flatten(d.cabundle.take(0)));
    while i < doc.cabundle.len()
        invariant
            i <= doc.cabundle@.len(),
            d == doc@,
            certs@ == d.certificate + flatten(d.cabundle.take(i as int)),
        decreases doc.cabundle.len() - i,
    {
        certs.extend_from_slice(doc.cabundle[i].as_slice());
        assert(d.cabundle.take(i + 1).drop_last() =~= d.cabundle.take(i as int));
        assert(certs@ =~= d.certificate + flatten(d.cabundle.take(i + 1)));
        i = i + 1;
    }
    assert(d.cabundle.take(doc.cabundle.len() as int) =~= d.cabundle);
    let cert_fp = sha256(certs.as_slice());
    let mut buf: Vec<u8> = Vec::new();
    append_pcr(&mut buf, &doc.pcrs, 0);
    append_pcr(&mut buf, &doc.pcrs, 3);
    append_pcr(&mut buf, &doc.pcrs, 4);
    buf.extend_from_slice(doc.module_id.as_str().as_bytes());
    buf.extend_from_slice(&cert_fp);
    assert(buf@ =~= pcr_or_empty(d.pcrs, 0) + pcr_or_empty(d.pcrs, 3) + pcr_or_empty(d.pcrs, 4)
        + encode_utf8(d.module_id) + spec_sha256(d.certificate + flatten(d.cabundle)));
    sha256(buf.as_slice())
}

} // verus!

verus! {

/// A step that passed.
pub open spec fn passed(name: Seq<char>) -> CheckView {
    CheckView { name, status: "passed"@, details: None }
}

/// A step that failed, and why.
pub open spec fn failed(name: Seq<char>, details: Seq<char>) -> CheckView {
    CheckView { name, status: "failed"@, details: Some(details) }
}

/// The outcome as a provider reports it: the result carries the
/// provider's name, and claims real hardware only when it is valid and the
/// provider is hardware-backed.  (The verdicts below leave both to this.)
pub open spec fn with_provider(
    o: Result<ResultView, VerifyErrorView>,
    name: Seq<char>,
    hardware: bool,
) -> Result<ResultView, VerifyErrorView> {
    match o {
        Ok(v) => Ok(ResultView { attestation_provider: name, verified_hardware: v.valid && hardware, ..v }),
        Err(e) => Err(e),
    }
}

/// The result of a receipt that failed a check.
pub open spec fn fail_result(
    e: VerifyErrorView,
    info: Option<ReceiptInfoView>,
    checks: Seq<CheckView>,
) -> ResultView {
    ResultView {
        valid: false,
        receipt: info,
        checks,
        attestation_provider: Seq::empty(),
        verified_hardware: false,
        error: Some(spec_verify_message(e)),
    }
}

/// The result of a receipt that passed every check.
pub open spec fn valid_result(info: ReceiptInfoView, checks: Seq<CheckView>) -> ResultView {
    ResultView {
        valid: true,
        receipt: Some(info),
        checks,
        attestation_provider: Seq::empty(),
        verified_hardware: false,
        error: None,
    }
}

pub open spec fn msg_bad_cose() -> Seq<char> {
    "Malformed COSE_Sign1 message"@
}

pub open spec fn msg_bad_claims() -> Seq<char> {
    "Malformed claims set"@
}

pub open spec fn msg_bad_doc() -> Seq<char> {
    "Malformed attestation document"@
}

/// What the receipt's headers fail, if anything: the protected header must
/// name EdDSA, declare no critical headers, and the unprotected header must
/// carry neither an algorithm nor a content type.
pub open spec fn spec_header_error(m: Sign1View) -> Option<VerifyErrorView> {
    match m.protected.alg {
        None => Some(VerifyErrorView::InvalidProtectedHeader),
        Some(a) => if a != CoseAlg::Int(ALG_EDDSA) {
            Some(VerifyErrorView::UnsupportedAlgorithm)
        } else if m.unprotected.alg is Some {
            Some(VerifyErrorView::AlgorithmInUnprotectedHeader)
        } else if m.protected.crit > 0 || m.unprotected.content_type {
            Some(VerifyErrorView::InvalidProtectedHeader)
        } else {
            None
        },
    }
}

/// The receipt's Ed25519 signature verifies under the claimed enclave key.
pub open spec fn spec_signature_ok(m: Sign1View, payload: Seq<u8>, pubkey: Seq<u8>) -> bool {
    m.signature.len() == 64 && spec_ed25519_verify(
        pubkey,
        spec_sig_structure(m.protected_bytes, payload),
        m.signature,
    )
}

/// The summary of a claim set.
pub open spec fn spec_receipt_info(c: ClaimsModel) -> ReceiptInfoView {
    ReceiptInfoView {
        version: spec_claims_version(c.sdk_version),
        model_hash: spec_hex(c.model_hash),
        input_hash: spec_hex(c.input_hash),
        output_hash: spec_hex(c.output_hash),
        sequence_num: c.sequence_num,
        timestamp: c.attestation_timestamp,
    }
}

/// A receipt whose envelope, claims, signature and attestation document
/// have been read.
pub struct ParsedView {
    pub claims: ClaimsModel,
    pub doc: DocModel,
    pub info: ReceiptInfoView,
    pub checks: Seq<CheckView>,
}

/// The enclosed attestation document.
pub open spec fn spec_parse_attestation(
    c: ClaimsModel,
    info: ReceiptInfoView,
    checks: Seq<CheckView>,
) -> Result<ParsedView, Result<ResultView, VerifyErrorView>> {
    match spec_decode_sign1(c.attestation_report) {
        None => Err(
            Ok(
                fail_result(
                    VerifyErrorView::InvalidAttestationDocument(msg_bad_cose()),
                    Some(info),
                    checks.push(failed("Attestation Format"@, msg_bad_cose())),
                ),
            ),
        ),
        Some(a) => match a.payload {
            None => Err(
                Ok(
                    fail_result(
                        VerifyErrorView::InvalidAttestationDocument("Missing payload"@),
                        Some(info),
                        checks.push(failed("Attestation Payload"@, "Missing payload"@)),
                    ),
                ),
            ),
            Some(ap) => match spec_decode_doc(ap) {
                Err(_) => Err(
                    Ok(
                        fail_result(
                            VerifyErrorView::InvalidAttestationDocument(msg_bad_doc()),
                            Some(info),
                            checks.push(failed("Attestation Doc Parsing"@, msg_bad_doc())),
                        ),
                    ),
                ),
                Ok(d) => Ok(ParsedView { claims: c, doc: d, info, checks }),
            },
        },
    }
}

/// The checks that need neither the attestation provider nor the clock:
/// size, envelope, headers, claims, attestation type, the receipt signature
/// and the shape of the attestation document.
pub open spec fn spec_parse_receipt(
    cfg: VerifierConfig,
    receipt: Seq<u8>,
    pcr0_len: nat,
) -> Result<ParsedView, Result<ResultView, VerifyErrorView>> {
    if receipt.len() > cfg.max_receipt_size {
        Err(Err(VerifyErrorView::ReceiptTooLarge))
    } else if pcr0_len != 48 {
        Err(Err(VerifyErrorView::InvalidPcrLength))
    } else {
        match spec_decode_sign1(receipt) {
            None => Err(
                Ok(
                    fail_result(
                        VerifyErrorView::MalformedReceipt,
                        None,
                        seq![failed("Receipt Format"@, msg_bad_cose())],
                    ),
                ),
            ),
            Some(m) => match spec_header_error(m) {
                Some(e) => Err(Err(e)),
                None => {
                    let c0 = seq![passed("Receipt Format"@)];
                    match m.payload {
                        None => Err(
                            Ok(
                                fail_result(
                                    VerifyErrorView::MalformedReceipt,
                                    None,
                                    c0.push(failed("Receipt Payload"@, "Missing payload"@)),
                                ),
                            ),
                        ),
                        Some(payload) => match spec_decode_claims(payload) {
                            Err(_) => Err(
                                Ok(
                                    fail_result(
                                        VerifyErrorView::MalformedReceipt,
                                        None,
                                        c0.push(failed("Claims Parsing"@, msg_bad_claims())),
                                    ),
                                ),
                            ),
                            Ok(c) => {
                                let info = spec_receipt_info(c);
                                let c1 = c0.push(passed("Claims Parsing"@));
                                if c.attestation_type != ATTESTATION_TYPE_NITRO {
                                    Err(
                                        Ok(
                                            fail_result(
                                                VerifyErrorView::UnsupportedAttestationType,
                                                Some(info),
                                                c1.push(
                                                    failed(
                                                        "Attestation Type"@,
                                                        "Expected Nitro attestation type 3, got "@
                                                            + spec_decimal(
                                                            c.attestation_type as nat,
                                                        ),
                                                    ),
                                                ),
                                            ),
                                        ),
                                    )
                                } else {
                                    let c2 = c1.push(passed("Attestation Type"@));
                                    if !spec_signature_ok(m, payload, c.enclave_pubkey) {
                                        Err(
                                            Ok(
                                                fail_result(
                                                    VerifyErrorView::InvalidCoseSignature,
                                                    Some(info),
                                                    c2.push(
                                                        failed(
                                                            "Receipt Signature"@,
                                                            "Ed25519 validation failed"@,
                                                        ),
                                                    ),
                                                ),
                                            ),
                                        )
                                    } else {
                                        spec_parse_attestation(
                                            c,
                                            info,
                                            c2.push(passed("Receipt Signature"@)),
                                        )
                                    }
                                }
                            },
                        },
                    }
                },
            },
        }
    }
}

} // verus!

verus! {

pub open spec fn abs(x: int) -> int {
    if x < 0 {
        -x
    } else {
        x
    }
}

pub open spec fn fits_i64(x: int) -> bool {
    i64::MIN <= x <= i64::MAX
}

/// A check failed: the receipt is rejected with this error and these checks.
pub open spec fn stop(e: VerifyErrorView, p: ParsedView, checks: Seq<CheckView>) -> Result<
    Seq<CheckView>,
    Result<ResultView, VerifyErrorView>,
> {
    Err(Ok(fail_result(e, Some(p.info), checks)))
}

/// The clock checks: the document is no further than the allowed skew from
/// now, the receipt's time no further than the allowed age from now either
/// way, and the document and receipt at most five seconds apart.
pub open spec fn spec_time_checks(
    cfg: VerifierConfig,
    p: ParsedView,
    checks: Seq<CheckView>,
    now: Option<u64>,
) -> Result<Seq<CheckView>, Result<ResultView, VerifyErrorView>> {
    match now {
        None => Err(Err(VerifyErrorView::InvalidAttestationDocument("Clock error"@))),
        Some(t) => {
            let now_sec = t as i64;
            let doc_sec = (p.doc.timestamp / 1000) as i64;
            let skew = now_sec - doc_sec;
            if !fits_i64(skew) {
                Err(Err(VerifyErrorView::InvalidTimestamp))
            } else if abs(skew) > cfg.max_clock_skew {
                stop(
                    VerifyErrorView::TimestampSkewExceeded,
                    p,
                    checks.push(
                        failed(
                            "Attestation Timestamp Skew"@,
                            "Skew is "@ + spec_decimal(abs(skew) as nat) + "s"@,
                        ),
                    ),
                )
            } else {
                let c1 = checks.push(passed("Attestation Timestamp Skew"@));
                let age = now_sec - p.claims.attestation_timestamp;
                if !fits_i64(age) {
                    Err(Err(VerifyErrorView::InvalidTimestamp))
                } else if abs(age) > cfg.max_receipt_age {
                    Err(Err(VerifyErrorView::ExpiredReceipt))
                } else {
                    let c2 = c1.push(passed("Receipt Timestamp Skew"@));
                    let align = doc_sec - p.claims.attestation_timestamp;
                    if !fits_i64(align) {
                        Err(Err(VerifyErrorView::InvalidTimestamp))
                    } else if abs(align) > 5 {
                        stop(
                            VerifyErrorView::AttestationDocTimestampMismatch,
                            p,
                            c2.push(
                                failed(
                                    "Timestamp Alignment"@,
                                    "Mismatch between doc and claims is "@ + spec_decimal(
                                        abs(align) as nat,
                                    ) + "s"@,
                                ),
                            ),
                        )
                    } else {
                        Ok(c2.push(passed("Timestamp Alignment"@)))
                    }
                }
            }
        },
    }
}

/// The binding checks: PCR0, the enclave key, REPORTDATA, the nonce and the
/// three hashes.
pub open spec fn spec_binding_checks(
    p: ParsedView,
    checks: Seq<CheckView>,
    model: Seq<u8>,
    input: Seq<u8>,
    output: Seq<u8>,
    nonce: Seq<u8>,
    pcr0: Seq<u8>,
) -> Result<Seq<CheckView>, Result<ResultView, VerifyErrorView>> {
    match pcr_lookup(p.doc.pcrs, 0) {
        None => stop(
            VerifyErrorView::PcrMismatch,
            p,
            checks.push(failed("PCR0 Check"@, "PCR0 missing in document"@)),
        ),
        Some(v) => if v != pcr0 {
            stop(
                VerifyErrorView::PcrMismatch,
                p,
                checks.push(
                    failed("PCR0 Check"@, "Expected: "@ + spec_hex(pcr0) + ", Got: "@ + spec_hex(v)),
                ),
            )
        } else {
            let c1 = checks.push(passed("PCR0 Check"@));
            match p.doc.public_key {
                None => stop(
                    VerifyErrorView::PubkeyBindingMismatch,
                    p,
                    c1.push(failed("Pubkey Binding"@, "Public key missing in document"@)),
                ),
                Some(k) => if k != p.claims.enclave_pubkey {
                    stop(
                        VerifyErrorView::PubkeyBindingMismatch,
                        p,
                        c1.push(failed("Pubkey Binding"@, "Public key mismatch"@)),
                    )
                } else {
                    let c2 = c1.push(passed("Pubkey Binding"@));
                    match p.doc.user_data {
                        None => stop(
                            VerifyErrorView::ReportDataMismatch,
                            p,
                            c2.push(failed("REPORTDATA Binding"@, "User data missing in document"@)),
                        ),
                        Some(u) => if u != spec_report_data(p.claims.enclave_pubkey) {
                            stop(
                                VerifyErrorView::ReportDataMismatch,
                                p,
                                c2.push(failed("REPORTDATA Binding"@, "REPORTDATA hash mismatch"@)),
                            )
                        } else {
                            let c3 = c2.push(passed("REPORTDATA Binding"@));
                            if !(p.doc.nonce == Some(nonce) && p.claims.client_nonce == nonce) {
                                stop(
                                    VerifyErrorView::NonceMismatch,
                                    p,
                                    c3.push(failed("Nonce Matching"@, "Nonce mismatch"@)),
                                )
                            } else {
                                let c4 = c3.push(passed("Nonce Matching"@));
                                if p.claims.model_hash != model {
                                    stop(
                                        VerifyErrorView::ModelHashMismatch,
                                        p,
                                        c4.push(failed("Model Hash"@, "Model Merkle root mismatch"@)),
                                    )
                                } else {
                                    let c5 = c4.push(passed("Model Hash"@));
                                    if p.claims.input_hash != input {
                                        stop(
                                            VerifyErrorView::InputHashMismatch,
                                            p,
                                            c5.push(failed("Input Hash"@, "Input hash mismatch"@)),
                                        )
                                    } else {
                                        let c6 = c5.push(passed("Input Hash"@));
                                        if p.claims.output_hash != output {
                                            stop(
                                                VerifyErrorView::OutputHashMismatch,
                                                p,
                                                c6.push(
                                                    failed("Output Hash"@, "Output hash mismatch"@),
                                                ),
                                            )
                                        } else {
                                            Ok(c6.push(passed("Output Hash"@)))
                                        }
                                    }
                                }
                            }
                        },
                    }
                },
            }
        },
    }
}

/// The sequence check of a stateful verifier: a receipt whose sequence
/// number does not exceed the last one accepted for its enclave identity
/// is refused; an accepted one becomes the new last.
pub open spec fn spec_sequence(
    p: ParsedView,
    checks: Seq<CheckView>,
    state: Option<Map<Seq<u8>, u64>>,
) -> (Result<ResultView, VerifyErrorView>, Option<Map<Seq<u8>, u64>>) {
    match state {
        None => (Ok(valid_result(p.info, checks)), None),
        Some(m) => {
            let fp = spec_identity_fingerprint(p.doc);
            let s = p.claims.sequence_num;
            if m.contains_key(fp) && s <= m[fp] {
                (
                    Ok(
                        fail_result(
                            VerifyErrorView::SequenceNumberOutOfOrder,
                            Some(p.info),
                            checks.push(
                                failed(
                                    "Sequence Check"@,
                                    "Sequence "@ + spec_decimal(s as nat) + " is out of order (last was "@
                                        + spec_decimal(m[fp] as nat) + ")"@,
                                ),
                            ),
                        ),
                    ),
                    Some(m),
                )
            } else {
                (
                    Ok(valid_result(p.info, checks.push(passed("Sequence Check"@)))),
                    Some(m.insert(fp, s)),
                )
            }
        },
    }
}

/// Everything after the receipt has been read, given the attestation
/// provider's verdict on the certificate chain and the clock.
pub open spec fn spec_after_parse(
    cfg: VerifierConfig,
    p: ParsedView,
    model: Seq<u8>,
    input: Seq<u8>,
    output: Seq<u8>,
    nonce: Seq<u8>,
    pcr0: Seq<u8>,
    chain_ok: bool,
    now: Option<u64>,
    state: Option<Map<Seq<u8>, u64>>,
) -> (Result<ResultView, VerifyErrorView>, Option<Map<Seq<u8>, u64>>) {
    if !chain_ok {
        (
            Ok(
                fail_result(
                    VerifyErrorView::InvalidAttestationDocument("Verification failed"@),
                    Some(p.info),
                    p.checks.push(
                        failed(
                            "Attestation Signature & Chain"@,
                            "Signature or chain verification failed"@,
                        ),
                    ),
                ),
            ),
            state,
        )
    } else {
        let c = p.checks.push(passed("Attestation Signature & Chain"@));
        match spec_time_checks(cfg, p, c, now) {
            Err(out) => (out, state),
            Ok(c2) => match spec_binding_checks(p, c2, model, input, output, nonce, pcr0) {
                Err(out) => (out, state),
                Ok(c3) => spec_sequence(p, c3, state),
            },
        }
    }
}

/// The verdict on a receipt and the verifier's next sequence state, given
/// whether some trusted root validated the attestation chain and the clock.
#[verifier::opaque]
pub open spec fn spec_verify(
    cfg: VerifierConfig,
    receipt: Seq<u8>,
    model: Seq<u8>,
    input: Seq<u8>,
    output: Seq<u8>,
    nonce: Seq<u8>,
    pcr0: Seq<u8>,
    chain_ok: bool,
    now: Option<u64>,
    state: Option<Map<Seq<u8>, u64>>,
) -> (Result<ResultView, VerifyErrorView>, Option<Map<Seq<u8>, u64>>) {
    match spec_parse_receipt(cfg, receipt, pcr0.len()) {
        Err(out) => (out, state),
        Ok(p) => spec_after_parse(cfg, p, model, input, output, nonce, pcr0, chain_ok, now, state),
    }
}

/// A verification outcome as values.
pub open spec fn outcome_view(r: Result<VerificationResult, VerifyError>) -> Result<
    ResultView,
    VerifyErrorView,
> {
    match r {
        Ok(v) => Ok(v@),
        Err(e) => Err(e@),
    }
}

} // verus!

verus! {

pub open spec fn opt_info_view(o: Option<ReceiptInfo>) -> Option<ReceiptInfoView> {
    match o {
        Some(i) => Some(i@),
        None => None,
    }
}

fn passed_check(name: &str) -> (c: VerificationCheck)
    ensures
        c@ == passed(name@),
{
    VerificationCheck {
        name: String::from_str(name),
        status: String::from_str("passed"),
        details: None,
    }
}

fn failed_check(name: &str, details: String) -> (c: VerificationCheck)
    ensures
        c@ == failed(name@, details@),
{
    VerificationCheck {
        name: String::from_str(name),
        status: String::from_str("failed"),
        details: Some(details),
    }
}

fn push_check(checks: &mut Vec<VerificationCheck>, c: VerificationCheck)
    ensures
        checks_view(final(checks)@) == checks_view(old(checks)@).push(c@),
{
    checks.push(c);
    assert(checks_view(checks@) =~= checks_view(old(checks)@).push(c@));
}

fn fail_with(e: VerifyError, info: Option<ReceiptInfo>, checks: Vec<VerificationCheck>) -> (r:
    VerificationResult)
    ensures
        r@ == fail_result(e@, opt_info_view(info), checks_view(checks@)),
{
    let msg = e.message();
    VerificationResult {
        valid: false,
        receipt: info,
        checks,
        attestation_provider: String::new(),
        verified_hardware: false,
        error: Some(msg),
    }
}

/// A receipt whose envelope, claims, signature and attestation document
/// have been read.
pub struct Parsed {
    pub claims: VeriClaims,
    pub doc: AttestationDoc,
    pub info: ReceiptInfo,
    pub checks: Vec<VerificationCheck>,
}

impl View for Parsed {
    type V = ParsedView;

    open spec fn view(&self) -> ParsedView {
        ParsedView {
            claims: self.claims@,
            doc: self.doc@,
            info: self.info@,
            checks: checks_view(self.checks@),
        }
    }
}

fn header_error(m: &CoseSign1) -> (r: Option<VerifyError>)
    ensures
        match r {
            Some(e) => spec_header_error(m@) == Some(e@),
            None => spec_header_error(m@) is None,
        },
{
    match m.protected.alg {
        None => Some(VerifyError::InvalidProtectedHeader),
        Some(a) => {
            let is_eddsa = match a {
                CoseAlg::Int(i) => i == ALG_EDDSA,
                CoseAlg::Text => false,
            };
            if !is_eddsa {
                Some(VerifyError::UnsupportedAlgorithm)
            } else if m.unprotected.alg.is_some() {
                Some(VerifyError::AlgorithmInUnprotectedHeader)
            } else if m.protected.crit > 0 || m.unprotected.content_type {
                Some(VerifyError::InvalidProtectedHeader)
            } else {
                None
            }
        },
    }
}

fn to_array64(b: &[u8]) -> (r: [u8; 64])
    requires
        b@.len() == 64,
    ensures
        r@ == b@,
{
    let mut r = [0u8; 64];
    let mut i: usize = 0;
    while i < 64
        invariant
            b@.len() == 64,
            i <= 64,
            forall|j: int| 0 <= j < i ==> r@[j] == b@[j],
        decreases 64 - i,
    {
        r[i] = b[i];
        i = i + 1;
    }
    assert(r@ =~= b@);
    r
}

pub(crate) fn signature_ok(m: &CoseSign1, payload: &[u8], pubkey: &[u8; 32]) -> (r: bool)
    ensures
        r == spec_signature_ok(m@, payload@, pubkey@),
{
    if m.signature.len() != 64 {
        return false;
    }
    let sig = to_array64(m.signature.as_slice());
    let tbs = sig_structure(m.protected_bytes.as_slice(), payload);
    ed25519_verify(pubkey, tbs.as_slice(), &sig)
}

fn receipt_info(c: &VeriClaims) -> (r: ReceiptInfo)
    ensures
        r@ == spec_receipt_info(c@),
{
    ReceiptInfo {
        version: claims_version_str(c.sdk_version.as_str()),
        model_hash: hex_encode(&c.model_hash),
        input_hash: hex_encode(&c.input_hash),
        output_hash: hex_encode(&c.output_hash),
        sequence_num: c.sequence_num,
        timestamp: c.attestation_timestamp,
    }
}

fn parse_attestation(c: VeriClaims, info: ReceiptInfo, checks: Vec<VerificationCheck>) -> (r: Result<
    Parsed,
    Result<VerificationResult, VerifyError>,
>)
    ensures
        match r {
            Ok(p) => spec_parse_attestation(c@, info@, checks_view(checks@)) == Ok::<
                ParsedView,
                Result<ResultView, VerifyErrorView>,
            >(p@),
            Err(o) => spec_parse_attestation(c@, info@, checks_view(checks@)) == Err::<
                ParsedView,
                Result<ResultView, VerifyErrorView>,
            >(outcome_view(o)),
        },
{
    let mut checks = checks;
    let a = match decode_sign1(c.attestation_report.as_slice()) {
        None => {
            push_check(&mut checks, failed_check("Attestation Format", String::from_str("Malformed COSE_Sign1 message")));
            let e = VerifyError::InvalidAttestationDocument(String::from_str("Malformed COSE_Sign1 message"));
            return Err(Ok(fail_with(e, Some(info), checks)));
        },
        Some(a) => a,
    };
    let ap = match a.payload {
        None => {
            push_check(&mut checks, failed_check("Attestation Payload", String::from_str("Missing payload")));
            let e = VerifyError::InvalidAttestationDocument(String::from_str("Missing payload"));
            return Err(Ok(fail_with(e, Some(info), checks)));
        },
        Some(ap) => ap,
    };
    match decode_doc(ap.as_slice()) {
        Err(_) => {
            push_check(&mut checks, failed_check("Attestation Doc Parsing", String::from_str("Malformed attestation document")));
            let e = VerifyError::InvalidAttestationDocument(String::from_str("Malformed attestation document"));
            Err(Ok(fail_with(e, Some(info), checks)))
        },
        Ok(d) => Ok(Parsed { claims: c, doc: d, info, checks }),
    }
}

fn parse_receipt(cfg: &VerifierConfig, receipt: &[u8], pcr0_len: usize) -> (r: Result<
    Parsed,
    Result<VerificationResult, VerifyError>,
>)
    ensures
        match r {
            Ok(p) => spec_parse_receipt(*cfg, receipt@, pcr0_len as nat) == Ok::<
                ParsedView,
                Result<ResultView, VerifyErrorView>,
            >(p@),
            Err(o) => spec_parse_receipt(*cfg, receipt@, pcr0_len as nat) == Err::<
                ParsedView,
                Result<ResultView, VerifyErrorView>,
            >(outcome_view(o)),
        },
{
    if receipt.len() > cfg.max_receipt_size {
        return Err(Err(VerifyError::ReceiptTooLarge));
    }
    if pcr0_len != 48 {
        return Err(Err(VerifyError::InvalidPcrLength));
    }
    let mut checks: Vec<VerificationCheck> = Vec::new();
    assert(checks_view(checks@) =~= Seq::<CheckView>::empty());
    let m = match decode_sign1(receipt) {
        None => {
            push_check(&mut checks, failed_check("Receipt Format", String::from_str("Malformed COSE_Sign1 message")));
            assert(checks_view(checks@) =~= seq![failed("Receipt Format"@, msg_bad_cose())]);
            return Err(Ok(fail_with(VerifyError::MalformedReceipt, None, checks)));
        },
        Some(m) => m,
    };
    match header_error(&m) {
        Some(e) => return Err(Err(e)),
        None => {},
    }
    push_check(&mut checks, passed_check("Receipt Format"));
    assert(checks_view(checks@) =~= seq![passed("Receipt Format"@)]);
    let payload = match &m.payload {
        None => {
            push_check(&mut checks, failed_check("Receipt Payload", String::from_str("Missing payload")));
            return Err(Ok(fail_with(VerifyError::MalformedReceipt, None, checks)));
        },
        Some(p) => p,
    };
    let c = match decode_claims(payload.as_slice()) {
        Err(_) => {
            push_check(&mut checks, failed_check("Claims Parsing", String::from_str("Malformed claims set")));
            return Err(Ok(fail_with(VerifyError::MalformedReceipt, None, checks)));
        },
        Ok(c) => c,
    };
    let info = receipt_info(&c);
    push_check(&mut checks, passed_check("Claims Parsing"));
    if c.attestation_type != ATTESTATION_TYPE_NITRO {
        let mut d = String::from_str("Expected Nitro attestation type 3, got ");
        push_decimal(&mut d, c.attestation_type);
        push_check(&mut checks, failed_check("Attestation Type", d));
        return Err(Ok(fail_with(VerifyError::UnsupportedAttestationType, Some(info), checks)));
    }
    push_check(&mut checks, passed_check("Attestation Type"));
    if !signature_ok(&m, payload.as_slice(), &c.enclave_pubkey) {
        push_check(&mut checks, failed_check("Receipt Signature", String::from_str("Ed25519 validation failed")));
        return Err(Ok(fail_with(VerifyError::InvalidCoseSignature, Some(info), checks)));
    }
    push_check(&mut checks, passed_check("Receipt Signature"));
    parse_attestation(c, info, checks)
}

} // verus!

verus! {

/// |x| of an `i64`, as a `u64`.
pub(crate) fn magnitude(x: i64) -> (r: u64)
    ensures
        r as int == abs(x as int),
{
    if x >= 0 {
        x as u64
    } else if x == i64::MIN {
        9223372036854775808u64
    } else {
        (-x) as u64
    }
}

fn copy_info(i: &ReceiptInfo) -> (r: ReceiptInfo)
    ensures
        r@ == i@,
{
    ReceiptInfo {
        version: i.version.clone(),
        model_hash: i.model_hash.clone(),
        input_hash: i.input_hash.clone(),
        output_hash: i.output_hash.clone(),
        sequence_num: i.sequence_num,
        timestamp: i.timestamp,
    }
}

fn stop_with(e: VerifyError, p: &Parsed, checks: Vec<VerificationCheck>) -> (r: Result<
    Vec<VerificationCheck>,
    Result<VerificationResult, VerifyError>,
>)
    ensures
        r is Err,
        r matches Err(o) && stop(e@, p@, checks_view(checks@)) == Err::<
            Seq<CheckView>,
            Result<ResultView, VerifyErrorView>,
        >(outcome_view(o)),
{
    Err(Ok(fail_with(e, Some(copy_info(&p.info)), checks)))
}

fn time_checks(cfg: &VerifierConfig, p: &Parsed, checks: Vec<VerificationCheck>, now: Option<u64>) -> (r: Result<
    Vec<VerificationCheck>,
    Result<VerificationResult, VerifyError>,
>)
    ensures
        match r {
            Ok(c) => spec_time_checks(*cfg, p@, checks_view(checks@), now) == Ok::<
                Seq<CheckView>,
                Result<ResultView, VerifyErrorView>,
            >(checks_view(c@)),
            Err(o) => spec_time_checks(*cfg, p@, checks_view(checks@), now) == Err::<
                Seq<CheckView>,
                Result<ResultView, VerifyErrorView>,
            >(outcome_view(o)),
        },
{
    let mut checks = checks;
    let t = match now {
        None => return Err(Err(VerifyError::InvalidAttestationDocument(String::from_str("Clock error")))),
        Some(t) => t,
    };
    let now_sec = t as i64;
    let doc_sec = (p.doc.timestamp / 1000) as i64;
    let skew = match now_sec.checked_sub(doc_sec) {
        None => return Err(Err(VerifyError::InvalidTimestamp)),
        Some(s) => s,
    };
    let skew_abs = magnitude(skew);
    if cfg.max_clock_skew < 0 || skew_abs > cfg.max_clock_skew as u64 {
        let mut d = String::from_str("Skew is ");
        push_decimal(&mut d, skew_abs);
        let d = d.concat("s");
        push_check(&mut checks, failed_check("Attestation Timestamp Skew", d));
        return stop_with(VerifyError::TimestampSkewExceeded, p, checks);
    }
    push_check(&mut checks, passed_check("Attestation Timestamp Skew"));
    let age = match now_sec.checked_sub(p.claims.attestation_timestamp) {
        None => return Err(Err(VerifyError::InvalidTimestamp)),
        Some(a) => a,
    };
    let age_abs = magnitude(age);
    if cfg.max_receipt_age < 0 || age_abs > cfg.max_receipt_age as u64 {
        return Err(Err(VerifyError::ExpiredReceipt));
    }
    push_check(&mut checks, passed_check("Receipt Timestamp Skew"));
    let align = match doc_sec.checked_sub(p.claims.attestation_timestamp) {
        None => return Err(Err(VerifyError::InvalidTimestamp)),
        Some(a) => a,
    };
    let align_abs = magnitude(align);
    if align_abs > 5 {
        let mut d = String::from_str("Mismatch between doc and claims is ");
        push_decimal(&mut d, align_abs);
        let d = d.concat("s");
        push_check(&mut checks, failed_check("Timestamp Alignment", d));
        return stop_with(VerifyError::AttestationDocTimestampMismatch, p, checks);
    }
    push_check(&mut checks, passed_check("Timestamp Alignment"));
    Ok(checks)
}

fn binding_checks(
    p: &Parsed,
    checks: Vec<VerificationCheck>,
    model: &[u8; 32],
    input: &[u8; 32],
    output: &[u8; 32],
    nonce: &[u8; 32],
    pcr0: &[u8],
) -> (r: Result<Vec<VerificationCheck>, Result<VerificationResult, VerifyError>>)
    ensures
        match r {
            Ok(c) => spec_binding_checks(p@, checks_view(checks@), model@, input@, output@, nonce@, pcr0@)
                == Ok::<Seq<CheckView>, Result<ResultView, VerifyErrorView>>(checks_view(c@)),
            Err(o) => spec_binding_checks(p@, checks_view(checks@), model@, input@, output@, nonce@, pcr0@)
                == Err::<Seq<CheckView>, Result<ResultView, VerifyErrorView>>(outcome_view(o)),
        },
{
    let mut checks = checks;
    let v = match find_pcr(&p.doc.pcrs, 0) {
        None => {
            push_check(&mut checks, failed_check("PCR0 Check", String::from_str("PCR0 missing in document")));
            return stop_with(VerifyError::PcrMismatch, p, checks);
        },
        Some(v) => v,
    };
    if !bytes_eq(v.as_slice(), pcr0) {
        let d = String::from_str("Expected: ").concat(hex_encode(pcr0).as_str()).concat(", Got: ").concat(
            hex_encode(v.as_slice()).as_str(),
        );
        push_check(&mut checks, failed_check("PCR0 Check", d));
        return stop_with(VerifyError::PcrMismatch, p, checks);
    }
    push_check(&mut checks, passed_check("PCR0 Check"));
    let k = match &p.doc.public_key {
        None => {
            push_check(&mut checks, failed_check("Pubkey Binding", String::from_str("Public key missing in document")));
            return stop_with(VerifyError::PubkeyBindingMismatch, p, checks);
        },
        Some(k) => k,
    };
    if !bytes_eq(k.as_slice(), &p.claims.enclave_pubkey) {
        push_check(&mut checks, failed_check("Pubkey Binding", String::from_str("Public key mismatch")));
        return stop_with(VerifyError::PubkeyBindingMismatch, p, checks);
    }
    push_check(&mut checks, passed_check("Pubkey Binding"));
    let u = match &p.doc.user_data {
        None => {
            push_check(&mut checks, failed_check("REPORTDATA Binding", String::from_str("User data missing in document")));
            return stop_with(VerifyError::ReportDataMismatch, p, checks);
        },
        Some(u) => u,
    };
    let expected_report = compute_report_data(&p.claims.enclave_pubkey);
    if !bytes_eq(u.as_slice(), &expected_report) {
        push_check(&mut checks, failed_check("REPORTDATA Binding", String::from_str("REPORTDATA hash mismatch")));
        return stop_with(VerifyError::ReportDataMismatch, p, checks);
    }
    push_check(&mut checks, passed_check("REPORTDATA Binding"));
    let doc_nonce_ok = match &p.doc.nonce {
        Some(n) => bytes_eq(n.as_slice(), nonce),
        None => false,
    };
    if !(doc_nonce_ok && bytes_eq(&p.claims.client_nonce, nonce)) {
        push_check(&mut checks, failed_check("Nonce Matching", String::from_str("Nonce mismatch")));
        return stop_with(VerifyError::NonceMismatch, p, checks);
    }
    push_check(&mut checks, passed_check("Nonce Matching"));
    if !bytes_eq(&p.claims.model_hash, model) {
        push_check(&mut checks, failed_check("Model Hash", String::from_str("Model Merkle root mismatch")));
        return stop_with(VerifyError::ModelHashMismatch, p, checks);
    }
    push_check(&mut checks, passed_check("Model Hash"));
    if !bytes_eq(&p.claims.input_hash, input) {
        push_check(&mut checks, failed_check("Input Hash", String::from_str("Input hash mismatch")));
        return stop_with(VerifyError::InputHashMismatch, p, checks);
    }
    push_check(&mut checks, passed_check("Input Hash"));
    if !bytes_eq(&p.claims.output_hash, output) {
        push_check(&mut checks, failed_check("Output Hash", String::from_str("Output hash mismatch")));
        return stop_with(VerifyError::OutputHashMismatch, p, checks);
    }
    push_check(&mut checks, passed_check("Output Hash"));
    Ok(checks)
}

} // verus!

verus! {

fn valid_with(info: ReceiptInfo, checks: Vec<VerificationCheck>) -> (r: VerificationResult)
    ensures
        r@ == valid_result(info@, checks_view(checks@)),
{
    VerificationResult {
        valid: true,
        receipt: Some(info),
        checks,
        attestation_provider: String::new(),
        verified_hardware: false,
        error: None,
    }
}

/// The provider may answer the document under this root with something
/// other than `Ok(true)`.
pub open spec fn refused_by<P: AttestationProvider>(provider: P, doc: Seq<u8>, root: Seq<u8>) -> bool {
    exists|r: Result<bool, AttestationErrorView>| r != Ok::<bool, AttestationErrorView>(true)
        && #[trigger] provider.verified(doc, root, r)
}

/// A chain verdict that the provider's answers can give: positive when the
/// provider vouched for the document under some trusted root, negative
/// when under every root it answered otherwise.
pub open spec fn chain_verdict<P: AttestationProvider>(
    provider: P,
    roots: Seq<Seq<u8>>,
    doc: Seq<u8>,
    chain_ok: bool,
) -> bool {
    if chain_ok {
        exists|i: int| 0 <= i < roots.len() && #[trigger] provider.verified(doc, roots[i], Ok(true))
    } else {
        forall|i: int| 0 <= i < roots.len() ==> #[trigger] refused_by(provider, doc, roots[i])
    }
}

/// A stateful or stateless receipt verifier.
pub struct Verifier<P: AttestationProvider> {
    provider: P,
    /// DER-encoded root certificates; a chain that reaches any of them is
    /// trusted, so only roots the caller trusts belong here.
    trusted_roots: Vec<Vec<u8>>,
    stateful: bool,
    /// Identity fingerprint and last accepted sequence number.
    state: Vec<([u8; 32], u64)>,
    config: VerifierConfig,
}

impl<P: AttestationProvider> Verifier<P> {
    /// The last accepted sequence number of each enclave identity, for a
    /// stateful verifier.
    pub closed spec fn state_view(&self) -> Option<Map<Seq<u8>, u64>> {
        if self.stateful {
            Some(state_map(self.state@))
        } else {
            None
        }
    }

    /// The trusted roots.
    pub closed spec fn roots_view(&self) -> Seq<Seq<u8>> {
        crate::types::bundle_view(self.trusted_roots@)
    }

    /// The limits applied.
    pub closed spec fn config_view(&self) -> VerifierConfig {
        self.config
    }

    /// The attestation provider.
    pub closed spec fn provider_view(&self) -> P {
        self.provider
    }

    /// A verifier with the default limits.
    pub fn new(provider: P, trusted_roots: Vec<Vec<u8>>, stateful: bool) -> (v: Self)
        ensures
            v.config_view() == (VerifierConfig {
                max_receipt_size: 65536,
                max_clock_skew: 300,
                max_receipt_age: 300,
            }),
            v.roots_view() == crate::types::bundle_view(trusted_roots@),
            v.state_view() == (if stateful {
                Some(Map::<Seq<u8>, u64>::empty())
            } else {
                None
            }),
            v.provider_view() == provider,
    {
        Self::new_with_config(provider, trusted_roots, stateful, VerifierConfig::default())
    }

    /// A verifier with the given limits.
    pub fn new_with_config(
        provider: P,
        trusted_roots: Vec<Vec<u8>>,
        stateful: bool,
        config: VerifierConfig,
    ) -> (v: Self)
        ensures
            v.config_view() == config,
            v.roots_view() == crate::types::bundle_view(trusted_roots@),
            v.state_view() == (if stateful {
                Some(Map::<Seq<u8>, u64>::empty())
            } else {
                None
            }),
            v.provider_view() == provider,
    {
        let state: Vec<([u8; 32], u64)> = Vec::new();
        assert(state_map(state@) =~= Map::<Seq<u8>, u64>::empty());
        Verifier { provider, trusted_roots, stateful, state, config }
    }

    fn sequence_step(&mut self, p: Parsed, checks: Vec<VerificationCheck>) -> (r: Result<
        VerificationResult,
        VerifyError,
    >)
        ensures
            (outcome_view(r), final(self).state_view()) == spec_sequence(
                p@,
                checks_view(checks@),
                old(self).state_view(),
            ),
            final(self).config_view() == old(self).config_view(),
            final(self).roots_view() == old(self).roots_view(),
            final(self).provider_view() == old(self).provider_view(),
    {
        if !self.stateful {
            return Ok(valid_with(p.info, checks));
        }
        let mut checks = checks;
        let fp = compute_identity_fingerprint(&p.doc);
        let s = p.claims.sequence_num;
        let ghost m = state_map(self.state@);
        match state_find(&self.state, &fp) {
            Some(i) => {
                proof {
                    lemma_state_found(self.state@, fp@, i as int);
                }
                let last = self.state[i].1;
                if s <= last {
                    let mut d = String::from_str("Sequence ");
                    push_decimal(&mut d, s);
                    let mut d = d.concat(" is out of order (last was ");
                    push_decimal(&mut d, last);
                    let d = d.concat(")");
                    push_check(&mut checks, failed_check("Sequence Check", d));
                    return Ok(fail_with(VerifyError::SequenceNumberOutOfOrder, Some(p.info), checks));
                }
                proof {
                    lemma_state_update(self.state@, fp, s, i as int);
                }
                self.state.set(i, (fp, s));
            },
            None => {
                proof {
                    lemma_state_absent(self.state@, fp@);
                }
                let ghost before = self.state@;
                self.state.push((fp, s));
                assert(self.state@.drop_last() =~= before);
            },
        }
        push_check(&mut checks, passed_check("Sequence Check"));
        Ok(valid_with(p.info, checks))
    }

    fn finish(
        &mut self,
        p: Parsed,
        model: &[u8; 32],
        input: &[u8; 32],
        output: &[u8; 32],
        nonce: &[u8; 32],
        pcr0: &[u8],
        chain_ok: bool,
        now: Option<u64>,
    ) -> (r: Result<VerificationResult, VerifyError>)
        ensures
            (outcome_view(r), final(self).state_view()) == spec_after_parse(
                old(self).config_view(),
                p@,
                model@,
                input@,
                output@,
                nonce@,
                pcr0@,
                chain_ok,
                now,
                old(self).state_view(),
            ),
            final(self).config_view() == old(self).config_view(),
            final(self).roots_view() == old(self).roots_view(),
            final(self).provider_view() == old(self).provider_view(),
    {
        let mut checks = p.checks;
        let p = Parsed { claims: p.claims, doc: p.doc, info: p.info, checks: Vec::new() };
        if !chain_ok {
            push_check(&mut checks, failed_check("Attestation Signature & Chain", String::from_str("Signature or chain verification failed")));
            let e = VerifyError::InvalidAttestationDocument(String::from_str("Verification failed"));
            return Ok(fail_with(e, Some(p.info), checks));
        }
        push_check(&mut checks, passed_check("Attestation Signature & Chain"));
        let checks = match time_checks(&self.config, &p, checks, now) {
            Err(o) => return o,
            Ok(c) => c,
        };
        let checks = match binding_checks(&p, checks, model, input, output, nonce, pcr0) {
            Err(o) => return o,
            Ok(c) => c,
        };
        self.sequence_step(p, checks)
    }

    fn verdict_at(
        &mut self,
        receipt: &[u8],
        expected_model_hash: [u8; 32],
        expected_input_hash: [u8; 32],
        expected_output_hash: [u8; 32],
        expected_nonce: [u8; 32],
        expected_pcr0: &[u8],
        chain_ok: bool,
        now: Option<u64>,
    ) -> (r: Result<VerificationResult, VerifyError>)
        ensures
            (outcome_view(r), final(self).state_view()) == spec_verify(
                old(self).config_view(),
                receipt@,
                expected_model_hash@,
                expected_input_hash@,
                expected_output_hash@,
                expected_nonce@,
                expected_pcr0@,
                chain_ok,
                now,
                old(self).state_view(),
            ),
            final(self).config_view() == old(self).config_view(),
            final(self).roots_view() == old(self).roots_view(),
            final(self).provider_view() == old(self).provider_view(),
    {
        reveal(spec_verify);
        let p = match parse_receipt(&self.config, receipt, expected_pcr0.len()) {
            Err(o) => return o,
            Ok(p) => p,
        };
        self.finish(
            p,
            &expected_model_hash,
            &expected_input_hash,
            &expected_output_hash,
            &expected_nonce,
            expected_pcr0,
            chain_ok,
            now,
        )
    }

    /// Names the provider in a result.
    fn labelled(&self, r: Result<VerificationResult, VerifyError>) -> (o: Result<VerificationResult, VerifyError>)
        ensures
            outcome_view(o) == with_provider(
                outcome_view(r),
                self.provider_view().spec_name(),
                self.provider_view().spec_hardware(),
            ),
    {
        match r {
            Ok(v) => {
                let hw = self.provider.is_hardware_backed();
                let name = self.provider.name();
                let valid = v.valid;
                let out = VerificationResult {
                    attestation_provider: String::from_str(name),
                    verified_hardware: valid && hw,
                    ..v
                };
                Ok(out)
            },
            Err(e) => Err(e),
        }
    }

    /// Verifies a receipt given whether the attestation document's chain
    /// leads to a trusted root (`chain_ok`) and the clock in whole seconds
    /// since the Unix epoch (`None` when it reads before the epoch).
    pub fn verify_at(
        &mut self,
        receipt: &[u8],
        expected_model_hash: [u8; 32],
        expected_input_hash: [u8; 32],
        expected_output_hash: [u8; 32],
        expected_nonce: [u8; 32],
        expected_pcr0: &[u8],
        chain_ok: bool,
        now: Option<u64>,
    ) -> (r: Result<VerificationResult, VerifyError>)
        ensures
            ({
                let v = spec_verify(
                    old(self).config_view(),
                    receipt@,
                    expected_model_hash@,
                    expected_input_hash@,
                    expected_output_hash@,
                    expected_nonce@,
                    expected_pcr0@,
                    chain_ok,
                    now,
                    old(self).state_view(),
                );
                &&& outcome_view(r) == with_provider(
                    v.0,
                    old(self).provider_view().spec_name(),
                    old(self).provider_view().spec_hardware(),
                )
                &&& final(self).state_view() == v.1
            }),
            final(self).config_view() == old(self).config_view(),
            final(self).roots_view() == old(self).roots_view(),
            final(self).provider_view() == old(self).provider_view(),
    {
        let r = self.verdict_at(
            receipt,
            expected_model_hash,
            expected_input_hash,
            expected_output_hash,
            expected_nonce,
            expected_pcr0,
            chain_ok,
            now,
        );
        self.labelled(r)
    }

    /// Verifies a receipt: the attestation provider checks the attestation
    /// document against each trusted root until one succeeds, and the
    /// clock is read once.  The verdict is `spec_verify` for that chain
    /// verdict and the clock reading: the chain verdict is positive exactly
    /// when the provider vouched for the document under some trusted root.
    pub fn verify(
        &mut self,
        receipt: &[u8],
        expected_model_hash: [u8; 32],
        expected_input_hash: [u8; 32],
        expected_output_hash: [u8; 32],
        expected_nonce: [u8; 32],
        expected_pcr0: &[u8],
    ) -> (r: Result<VerificationResult, VerifyError>)
        ensures
            exists|chain_ok: bool, now: Option<u64>|
                {
                    let v = #[trigger] spec_verify(
                        old(self).config_view(),
                        receipt@,
                        expected_model_hash@,
                        expected_input_hash@,
                        expected_output_hash@,
                        expected_nonce@,
                        expected_pcr0@,
                        chain_ok,
                        now,
                        old(self).state_view(),
                    );
                    &&& outcome_view(r) == with_provider(
                        v.0,
                        old(self).provider_view().spec_name(),
                        old(self).provider_view().spec_hardware(),
                    )
                    &&& final(self).state_view() == v.1
                    &&& (spec_parse_receipt(old(self).config_view(), receipt@, expected_pcr0@.len())
                        matches Ok(p) ==> chain_verdict(
                        old(self).provider_view(),
                        old(self).roots_view(),
                        p.claims.attestation_report,
                        chain_ok,
                    ))
                },
            final(self).config_view() == old(self).config_view(),
            final(self).roots_view() == old(self).roots_view(),
            final(self).provider_view() == old(self).provider_view(),
    {
        reveal(spec_verify);
        let p = match parse_receipt(&self.config, receipt, expected_pcr0.len()) {
            Err(o) => {
                let o2 = self.labelled(o);
                assert((outcome_view(o), self.state_view()) == spec_verify(
                    self.config_view(),
                    receipt@,
                    expected_model_hash@,
                    expected_input_hash@,
                    expected_output_hash@,
                    expected_nonce@,
                    expected_pcr0@,
                    false,
                    None,
                    self.state_view(),
                ));
                return o2;
            },
            Ok(p) => p,
        };
        let ghost report = p@.claims.attestation_report;
        let ghost roots = self.roots_view();
        let mut chain_ok = false;
        let mut i: usize = 0;
        while i < self.trusted_roots.len() && !chain_ok
            invariant
                i <= self.trusted_roots@.len(),
                roots == crate::types::bundle_view(self.trusted_roots@),
                report == p.claims.attestation_report@,
                chain_ok ==> exists|j: int|
                    0 <= j < i && #[trigger] self.provider.verified(report, roots[j], Ok(true)),
                !chain_ok ==> forall|j: int| 0 <= j < i ==> #[trigger] refused_by(self.provider, report, roots[j]),
            decreases self.trusted_roots@.len() - i,
        {
            let res = self.provider.verify(
                p.claims.attestation_report.as_slice(),
                self.trusted_roots[i].as_slice(),
            );
            assert(roots[i as int] == self.trusted_roots@[i as int]@);
            match res {
                Ok(true) => {
                    chain_ok = true;
                },
                _ => {
                    assert(self.provider.verified(report, roots[i as int], verdict_view(res)));
                    assert(refused_by(self.provider, report, roots[i as int]));
                },
            }
            i = i + 1;
        }
        let now = match unix_time_now() {
            Some((s, _n)) => Some(s),
            None => None,
        };
        let ghost before = self.state_view();
        let r0 = self.finish(
            p,
            &expected_model_hash,
            &expected_input_hash,
            &expected_output_hash,
            &expected_nonce,
            expected_pcr0,
            chain_ok,
            now,
        );
        let r = self.labelled(r0);
        assert(chain_verdict(self.provider_view(), roots, report, chain_ok));
        assert((outcome_view(r0), self.state_view()) == spec_verify(
            old(self).config_view(),
            receipt@,
            expected_model_hash@,
            expected_input_hash@,
            expected_output_hash@,
            expected_nonce@,
            expected_pcr0@,
            chain_ok,
            now,
            old(self).state_view(),
        ));
        r
    }

    /// The sequence state of a stateful verifier: (identity fingerprint,
    /// last accepted sequence number) pairs.
    pub fn get_state(&self) -> (r: Option<Vec<([u8; 32], u64)>>)
        ensures
            match r {
                Some(v) => self.state_view() == Some(state_map(v@)),
                None => self.state_view() is None,
            },
    {
        if !self.stateful {
            return None;
        }
        let mut out: Vec<([u8; 32], u64)> = Vec::new();
        let mut i: usize = 0;
        while i < self.state.len()
            invariant
                i <= self.state@.len(),
                out@ == self.state@.take(i as int),
            decreases self.state@.len() - i,
        {
            let e = self.state[i];
            out.push(e);
            assert(out@ =~= self.state@.take(i + 1));
            i = i + 1;
        }
        assert(out@ =~= self.state@);
        Some(out)
    }

    /// Replaces the sequence state of a stateful verifier; a stateless
    /// verifier stays as it is.
    pub fn set_state(&mut self, new_state: Vec<([u8; 32], u64)>) -> (r: Result<(), String>)
        ensures
            r is Ok,
            final(self).state_view() == (if old(self).state_view() is Some {
                Some(state_map(new_state@))
            } else {
                None
            }),
            final(self).config_view() == old(self).config_view(),
            final(self).roots_view() == old(self).roots_view(),
            final(self).provider_view() == old(self).provider_view(),
    {
        if self.stateful {
            self.state = new_state;
        }
        Ok(())
    }
}

} // verus!

verus! {

/// Whether an outcome is an accepted receipt.
pub open spec fn accepted(o: Result<ResultView, VerifyErrorView>) -> bool {
    o matches Ok(v) && v.valid
}

proof fn lemma_time_checks_shape(cfg: VerifierConfig, p: ParsedView, c: Seq<CheckView>, now: Option<u64>)
    ensures
        spec_time_checks(cfg, p, c, now) matches Err(o) ==> !accepted(o),
{
}

proof fn lemma_binding_checks_shape(
    p: ParsedView,
    c: Seq<CheckView>,
    model: Seq<u8>,
    input: Seq<u8>,
    output: Seq<u8>,
    nonce: Seq<u8>,
    pcr0: Seq<u8>,
)
    ensures
        spec_binding_checks(p, c, model, input, output, nonce, pcr0) matches Err(o) ==> !accepted(o),
{
}

proof fn lemma_parse_shape(cfg: VerifierConfig, receipt: Seq<u8>, n: nat)
    ensures
        spec_parse_receipt(cfg, receipt, n) matches Err(o) ==> !accepted(o),
{
}

/// A stateful verifier accepts a receipt at most once: whatever the
/// attestation chain verdict and the clock are the second time, the state
/// left by accepting it makes the same receipt fail.
pub proof fn lemma_replay_rejected(
    cfg: VerifierConfig,
    receipt: Seq<u8>,
    model: Seq<u8>,
    input: Seq<u8>,
    output: Seq<u8>,
    nonce: Seq<u8>,
    pcr0: Seq<u8>,
    chain_ok1: bool,
    now1: Option<u64>,
    chain_ok2: bool,
    now2: Option<u64>,
    state: Map<Seq<u8>, u64>,
)
    requires
        accepted(
            spec_verify(
                cfg,
                receipt,
                model,
                input,
                output,
                nonce,
                pcr0,
                chain_ok1,
                now1,
                Some(state),
            ).0,
        ),
    ensures
        !accepted(
            spec_verify(
                cfg,
                receipt,
                model,
                input,
                output,
                nonce,
                pcr0,
                chain_ok2,
                now2,
                spec_verify(
                    cfg,
                    receipt,
                    model,
                    input,
                    output,
                    nonce,
                    pcr0,
                    chain_ok1,
                    now1,
                    Some(state),
                ).1,
            ).0,
        ),
{
    reveal(spec_verify);
    lemma_parse_shape(cfg, receipt, pcr0.len());
    let p = spec_parse_receipt(cfg, receipt, pcr0.len())->Ok_0;
    let c1 = p.checks.push(passed("Attestation Signature & Chain"@));
    lemma_time_checks_shape(cfg, p, c1, now1);
    let t1 = spec_time_checks(cfg, p, c1, now1)->Ok_0;
    lemma_binding_checks_shape(p, t1, model, input, output, nonce, pcr0);
    let fp = spec_identity_fingerprint(p.doc);
    let s = p.claims.sequence_num;
    let next = spec_verify(cfg, receipt, model, input, output, nonce, pcr0, chain_ok1, now1, Some(state)).1;
    assert(next == Some(state.insert(fp, s)));
    let c2 = p.checks.push(passed("Attestation Signature & Chain"@));
    lemma_time_checks_shape(cfg, p, c2, now2);
    match spec_time_checks(cfg, p, c2, now2) {
        Ok(t2) => {
            lemma_binding_checks_shape(p, t2, model, input, output, nonce, pcr0);
        },
        Err(_) => {},
    }
}

/// The checks that an accepted receipt has passed: its size is within the
/// limit and the expected PCR0 is 48 bytes; it is a COSE_Sign1 message
/// with a payload of Nitro-type claims, signed by the enclave key that the
/// claims name; the enclosed attestation document decodes, its PCR0 is the
/// expected one, its public key is the enclave key, its REPORTDATA is the
/// key binding and its nonce is the client's; the claims carry the
/// expected nonce and hashes; and the clock reading is within the allowed
/// skew of the document, the receipt's time is within the allowed age of
/// it either way, and the document and receipt times are at most five
/// seconds apart.
pub open spec fn passes_every_check(
    cfg: VerifierConfig,
    receipt: Seq<u8>,
    model: Seq<u8>,
    input: Seq<u8>,
    output: Seq<u8>,
    nonce: Seq<u8>,
    pcr0: Seq<u8>,
    now: Option<u64>,
) -> bool {
    &&& receipt.len() <= cfg.max_receipt_size
    &&& pcr0.len() == 48
    &&& spec_decode_sign1(receipt) matches Some(m)
    &&& m.payload matches Some(payload)
    &&& spec_decode_claims(payload) matches Ok(c)
    &&& c.attestation_type == ATTESTATION_TYPE_NITRO
    &&& spec_signature_ok(m, payload, c.enclave_pubkey)
    &&& spec_decode_sign1(c.attestation_report) matches Some(a)
    &&& a.payload matches Some(ap)
    &&& spec_decode_doc(ap) matches Ok(d)
    &&& pcr_lookup(d.pcrs, 0) == Some(pcr0)
    &&& d.public_key == Some(c.enclave_pubkey)
    &&& d.user_data == Some(spec_report_data(c.enclave_pubkey))
    &&& d.nonce == Some(nonce)
    &&& c.client_nonce == nonce
    &&& c.model_hash == model
    &&& c.input_hash == input
    &&& c.output_hash == output
    &&& now matches Some(t)
    &&& {
        let now_sec = t as i64;
        let doc_sec = (d.timestamp / 1000) as i64;
        &&& abs(now_sec - doc_sec) <= cfg.max_clock_skew
        &&& abs(now_sec - c.attestation_timestamp) <= cfg.max_receipt_age
        &&& abs(doc_sec - c.attestation_timestamp) <= 5
    }
}

proof fn lemma_parse_facts(cfg: VerifierConfig, receipt: Seq<u8>, n: nat)
    requires
        spec_parse_receipt(cfg, receipt, n) is Ok,
    ensures
        ({
            let p = spec_parse_receipt(cfg, receipt, n)->Ok_0;
            &&& receipt.len() <= cfg.max_receipt_size
            &&& n == 48
            &&& spec_decode_sign1(receipt) matches Some(m)
            &&& m.payload matches Some(payload)
            &&& spec_decode_claims(payload) == Ok::<ClaimsModel, crate::claims::ClaimsError>(p.claims)
            &&& p.claims.attestation_type == ATTESTATION_TYPE_NITRO
            &&& spec_signature_ok(m, payload, p.claims.enclave_pubkey)
            &&& spec_decode_sign1(p.claims.attestation_report) matches Some(a)
            &&& a.payload matches Some(ap)
            &&& spec_decode_doc(ap) == Ok::<DocModel, crate::doc::DocError>(p.doc)
        }),
{
}

/// An accepted receipt passed every check, and the attestation provider
/// vouched for its document's certificate chain, whatever the verifier's
/// sequence state.
pub proof fn lemma_accepted_receipt_passed_every_check(
    cfg: VerifierConfig,
    receipt: Seq<u8>,
    model: Seq<u8>,
    input: Seq<u8>,
    output: Seq<u8>,
    nonce: Seq<u8>,
    pcr0: Seq<u8>,
    chain_ok: bool,
    now: Option<u64>,
    state: Option<Map<Seq<u8>, u64>>,
)
    requires
        accepted(spec_verify(cfg, receipt, model, input, output, nonce, pcr0, chain_ok, now, state).0),
    ensures
        chain_ok,
        passes_every_check(cfg, receipt, model, input, output, nonce, pcr0, now),
{
    reveal(spec_verify);
    lemma_parse_shape(cfg, receipt, pcr0.len());
    lemma_parse_facts(cfg, receipt, pcr0.len());
    let p = spec_parse_receipt(cfg, receipt, pcr0.len())->Ok_0;
    let c1 = p.checks.push(passed("Attestation Signature & Chain"@));
    lemma_time_checks_shape(cfg, p, c1, now);
    let t1 = spec_time_checks(cfg, p, c1, now)->Ok_0;
    lemma_binding_checks_shape(p, t1, model, input, output, nonce, pcr0);
}

/// A receipt over the size limit is refused as too large before it is
/// read, and an expected PCR0 that is not 48 bytes is refused before the
/// receipt is read; either way the sequence state stays as it was.
pub proof fn lemma_refused_before_parsing(
    cfg: VerifierConfig,
    receipt: Seq<u8>,
    model: Seq<u8>,
    input: Seq<u8>,
    output: Seq<u8>,
    nonce: Seq<u8>,
    pcr0: Seq<u8>,
    chain_ok: bool,
    now: Option<u64>,
    state: Option<Map<Seq<u8>, u64>>,
)
    ensures
        receipt.len() > cfg.max_receipt_size ==> spec_verify(
            cfg,
            receipt,
            model,
            input,
            output,
            nonce,
            pcr0,
            chain_ok,
            now,
            state,
        ) == (Err::<ResultView, VerifyErrorView>(VerifyErrorView::ReceiptTooLarge), state),
        receipt.len() <= cfg.max_receipt_size && pcr0.len() != 48 ==> spec_verify(
            cfg,
            receipt,
            model,
            input,
            output,
            nonce,
            pcr0,
            chain_ok,
            now,
            state,
        ) == (Err::<ResultView, VerifyErrorView>(VerifyErrorView::InvalidPcrLength), state),
{
    reveal(spec_verify);
}

/// Only an accepted receipt changes the sequence state: a refused one,
/// whatever the reason, leaves it as it was.
pub proof fn lemma_refusal_keeps_state(
    cfg: VerifierConfig,
    receipt: Seq<u8>,
    model: Seq<u8>,
    input: Seq<u8>,
    output: Seq<u8>,
    nonce: Seq<u8>,
    pcr0: Seq<u8>,
    chain_ok: bool,
    now: Option<u64>,
    state: Option<Map<Seq<u8>, u64>>,
)
    requires
        !accepted(spec_verify(cfg, receipt, model, input, output, nonce, pcr0, chain_ok, now, state).0),
    ensures
        spec_verify(cfg, receipt, model, input, output, nonce, pcr0, chain_ok, now, state).1 == state,
{
    reveal(spec_verify);
}

/// Every check passed.
pub open spec fn all_passed(c: Seq<CheckView>) -> bool {
    forall|i: int| 0 <= i < c.len() ==> #[trigger] c[i].status == "passed"@
}

/// The shape of a verification result: it is valid exactly when it
/// reports no error; a valid result carries the receipt's claims and only
/// passed checks; an invalid one ends with a failed check, after passed
/// ones.
pub open spec fn result_shape(v: ResultView) -> bool {
    &&& v.valid <==> v.error is None
    &&& v.valid ==> v.receipt is Some && all_passed(v.checks)
    &&& !v.valid ==> v.checks.len() > 0 && v.checks.last().status == "failed"@ && all_passed(
        v.checks.drop_last(),
    )
}

proof fn lemma_push_passed(c: Seq<CheckView>, name: Seq<char>)
    requires
        all_passed(c),
    ensures
        all_passed(c.push(passed(name))),
{
    reveal_strlit("passed");
    assert forall|i: int| 0 <= i < c.push(passed(name)).len() implies #[trigger] c.push(passed(name))[i].status
        == "passed"@ by {
        if i < c.len() {
            assert(c.push(passed(name))[i] == c[i]);
        }
    }
}

proof fn lemma_push_failed(e: VerifyErrorView, info: Option<ReceiptInfoView>, c: Seq<CheckView>, name: Seq<char>, why: Seq<char>)
    requires
        all_passed(c),
    ensures
        result_shape(fail_result(e, info, c.push(failed(name, why)))),
{
    reveal_strlit("passed");
    reveal_strlit("failed");
    assert(c.push(failed(name, why)).drop_last() =~= c);
}

proof fn lemma_parse_result_shape(cfg: VerifierConfig, receipt: Seq<u8>, n: nat)
    ensures
        match spec_parse_receipt(cfg, receipt, n) {
            Ok(p) => all_passed(p.checks),
            Err(Ok(v)) => result_shape(v),
            Err(Err(_)) => true,
        },
{
    let e: Seq<CheckView> = Seq::empty();
    assert(all_passed(e));
    assert(seq![failed("Receipt Format"@, msg_bad_cose())] =~= e.push(failed("Receipt Format"@, msg_bad_cose())));
    lemma_push_failed(VerifyErrorView::MalformedReceipt, None, e, "Receipt Format"@, msg_bad_cose());
    let c0 = seq![passed("Receipt Format"@)];
    assert(c0 =~= e.push(passed("Receipt Format"@)));
    lemma_push_passed(e, "Receipt Format"@);
    if receipt.len() <= cfg.max_receipt_size && n == 48 {
        if let Some(m) = spec_decode_sign1(receipt) {
            if spec_header_error(m) is None {
                lemma_push_failed(VerifyErrorView::MalformedReceipt, None, c0, "Receipt Payload"@, "Missing payload"@);
                lemma_push_failed(VerifyErrorView::MalformedReceipt, None, c0, "Claims Parsing"@, msg_bad_claims());
                if let Some(payload) = m.payload {
                    if let Ok(c) = spec_decode_claims(payload) {
                        let info = spec_receipt_info(c);
                        let c1 = c0.push(passed("Claims Parsing"@));
                        lemma_push_passed(c0, "Claims Parsing"@);
                        lemma_push_failed(
                            VerifyErrorView::UnsupportedAttestationType,
                            Some(info),
                            c1,
                            "Attestation Type"@,
                            "Expected Nitro attestation type 3, got "@ + spec_decimal(c.attestation_type as nat),
                        );
                        let c2 = c1.push(passed("Attestation Type"@));
                        lemma_push_passed(c1, "Attestation Type"@);
                        lemma_push_failed(
                            VerifyErrorView::InvalidCoseSignature,
                            Some(info),
                            c2,
                            "Receipt Signature"@,
                            "Ed25519 validation failed"@,
                        );
                        let c3 = c2.push(passed("Receipt Signature"@));
                        lemma_push_passed(c2, "Receipt Signature"@);
                        lemma_push_failed(
                            VerifyErrorView::InvalidAttestationDocument(msg_bad_cose()),
                            Some(info),
                            c3,
                            "Attestation Format"@,
                            msg_bad_cose(),
                        );
                        lemma_push_failed(
                            VerifyErrorView::InvalidAttestationDocument("Missing payload"@),
                            Some(info),
                            c3,
                            "Attestation Payload"@,
                            "Missing payload"@,
                        );
                        lemma_push_failed(
                            VerifyErrorView::InvalidAttestationDocument(msg_bad_doc()),
                            Some(info),
                            c3,
                            "Attestation Doc Parsing"@,
                            msg_bad_doc(),
                        );
                    }
                }
            }
        }
    }
}

proof fn lemma_time_result_shape(cfg: VerifierConfig, p: ParsedView, c: Seq<CheckView>, now: Option<u64>)
    requires
        all_passed(c),
    ensures
        match spec_time_checks(cfg, p, c, now) {
            Ok(c2) => all_passed(c2),
            Err(Ok(v)) => result_shape(v),
            Err(Err(_)) => true,
        },
{
    if let Some(t) = now {
        let now_sec = t as i64;
        let doc_sec = (p.doc.timestamp / 1000) as i64;
        let skew = now_sec - doc_sec;
        lemma_push_failed(
            VerifyErrorView::TimestampSkewExceeded,
            Some(p.info),
            c,
            "Attestation Timestamp Skew"@,
            "Skew is "@ + spec_decimal(abs(skew) as nat) + "s"@,
        );
        let c1 = c.push(passed("Attestation Timestamp Skew"@));
        lemma_push_passed(c, "Attestation Timestamp Skew"@);
        let c2 = c1.push(passed("Receipt Timestamp Skew"@));
        lemma_push_passed(c1, "Receipt Timestamp Skew"@);
        let align = doc_sec - p.claims.attestation_timestamp;
        lemma_push_failed(
            VerifyErrorView::AttestationDocTimestampMismatch,
            Some(p.info),
            c2,
            "Timestamp Alignment"@,
            "Mismatch between doc and claims is "@ + spec_decimal(abs(align) as nat) + "s"@,
        );
        lemma_push_passed(c2, "Timestamp Alignment"@);
    }
}

proof fn lemma_binding_result_shape(
    p: ParsedView,
    c: Seq<CheckView>,
    model: Seq<u8>,
    input: Seq<u8>,
    output: Seq<u8>,
    nonce: Seq<u8>,
    pcr0: Seq<u8>,
)
    requires
        all_passed(c),
    ensures
        match spec_binding_checks(p, c, model, input, output, nonce, pcr0) {
            Ok(c2) => all_passed(c2),
            Err(Ok(v)) => result_shape(v),
            Err(Err(_)) => true,
        },
{
    let i = Some(p.info);
    lemma_push_failed(VerifyErrorView::PcrMismatch, i, c, "PCR0 Check"@, "PCR0 missing in document"@);
    if let Some(v) = pcr_lookup(p.doc.pcrs, 0) {
        lemma_push_failed(
            VerifyErrorView::PcrMismatch,
            i,
            c,
            "PCR0 Check"@,
            "Expected: "@ + spec_hex(pcr0) + ", Got: "@ + spec_hex(v),
        );
    }
    let c1 = c.push(passed("PCR0 Check"@));
    lemma_push_passed(c, "PCR0 Check"@);
    lemma_push_failed(VerifyErrorView::PubkeyBindingMismatch, i, c1, "Pubkey Binding"@, "Public key missing in document"@);
    lemma_push_failed(VerifyErrorView::PubkeyBindingMismatch, i, c1, "Pubkey Binding"@, "Public key mismatch"@);
    let c2 = c1.push(passed("Pubkey Binding"@));
    lemma_push_passed(c1, "Pubkey Binding"@);
    lemma_push_failed(VerifyErrorView::ReportDataMismatch, i, c2, "REPORTDATA Binding"@, "User data missing in document"@);
    lemma_push_failed(VerifyErrorView::ReportDataMismatch, i, c2, "REPORTDATA Binding"@, "REPORTDATA hash mismatch"@);
    let c3 = c2.push(passed("REPORTDATA Binding"@));
    lemma_push_passed(c2, "REPORTDATA Binding"@);
    lemma_push_failed(VerifyErrorView::NonceMismatch, i, c3, "Nonce Matching"@, "Nonce mismatch"@);
    let c4 = c3.push(passed("Nonce Matching"@));
    lemma_push_passed(c3, "Nonce Matching"@);
    lemma_push_failed(VerifyErrorView::ModelHashMismatch, i, c4, "Model Hash"@, "Model Merkle root mismatch"@);
    let c5 = c4.push(passed("Model Hash"@));
    lemma_push_passed(c4, "Model Hash"@);
    lemma_push_failed(VerifyErrorView::InputHashMismatch, i, c5, "Input Hash"@, "Input hash mismatch"@);
    let c6 = c5.push(passed("Input Hash"@));
    lemma_push_passed(c5, "Input Hash"@);
    lemma_push_failed(VerifyErrorView::OutputHashMismatch, i, c6, "Output Hash"@, "Output hash mismatch"@);
    lemma_push_passed(c6, "Output Hash"@);
}

/// Every verdict has the shape of a verification result, and carries the
/// provider's name and its hardware claim: the result is valid exactly
/// when it reports no error; a valid result carries the receipt's claims
/// and only passed checks; an invalid one ends with a failed check after
/// passed ones; it names the provider, and claims real hardware only when
/// valid and the provider is hardware-backed.
pub proof fn lemma_result_shape(
    cfg: VerifierConfig,
    receipt: Seq<u8>,
    model: Seq<u8>,
    input: Seq<u8>,
    output: Seq<u8>,
    nonce: Seq<u8>,
    pcr0: Seq<u8>,
    chain_ok: bool,
    now: Option<u64>,
    state: Option<Map<Seq<u8>, u64>>,
    name: Seq<char>,
    hardware: bool,
)
    ensures
        with_provider(
            spec_verify(cfg, receipt, model, input, output, nonce, pcr0, chain_ok, now, state).0,
            name,
            hardware,
        ) matches Ok(v) ==> {
            &&& result_shape(v)
            &&& v.attestation_provider == name
            &&& v.verified_hardware == (v.valid && hardware)
        },
{
    reveal(spec_verify);
    lemma_parse_result_shape(cfg, receipt, pcr0.len());
    if let Ok(p) = spec_parse_receipt(cfg, receipt, pcr0.len()) {
        lemma_push_failed(
            VerifyErrorView::InvalidAttestationDocument("Verification failed"@),
            Some(p.info),
            p.checks,
            "Attestation Signature & Chain"@,
            "Signature or chain verification failed"@,
        );
        let c = p.checks.push(passed("Attestation Signature & Chain"@));
        lemma_push_passed(p.checks, "Attestation Signature & Chain"@);
        lemma_time_result_shape(cfg, p, c, now);
        if let Ok(c2) = spec_time_checks(cfg, p, c, now) {
            lemma_binding_result_shape(p, c2, model, input, output, nonce, pcr0);
            if let Ok(c3) = spec_binding_checks(p, c2, model, input, output, nonce, pcr0) {
                if let Some(m) = state {
                    let fp = spec_identity_fingerprint(p.doc);
                    let s = p.claims.sequence_num;
                    if m.contains_key(fp) {
                        lemma_push_failed(
                            VerifyErrorView::SequenceNumberOutOfOrder,
                            Some(p.info),
                            c3,
                            "Sequence Check"@,
                            "Sequence "@ + spec_decimal(s as nat) + " is out of order (last was "@
                                + spec_decimal(m[fp] as nat) + ")"@,
                        );
                    }
                    lemma_push_passed(c3, "Sequence Check"@);
                }
            }
        }
    }
}

/// `info` reports the claims that `receipt` carries: the hexadecimal text
/// of its model, input and output hashes, its sequence number and its time.
pub open spec fn reports_claims(receipt: Seq<u8>, info: ReceiptInfoView) -> bool {
    &&& spec_decode_sign1(receipt) matches Some(m)
    &&& m.payload matches Some(payload)
    &&& spec_decode_claims(payload) matches Ok(c)
    &&& info.model_hash == spec_hex(c.model_hash)
    &&& info.input_hash == spec_hex(c.input_hash)
    &&& info.output_hash == spec_hex(c.output_hash)
    &&& info.sequence_num == c.sequence_num
    &&& info.timestamp == c.attestation_timestamp
}

proof fn lemma_parse_reports(cfg: VerifierConfig, receipt: Seq<u8>, n: nat)
    ensures
        match spec_parse_receipt(cfg, receipt, n) {
            Ok(p) => reports_claims(receipt, p.info),
            Err(Ok(v)) => v.receipt matches Some(info) ==> reports_claims(receipt, info),
            Err(Err(_)) => true,
        },
{
}

proof fn lemma_after_parse_reports(
    cfg: VerifierConfig,
    p: ParsedView,
    model: Seq<u8>,
    input: Seq<u8>,
    output: Seq<u8>,
    nonce: Seq<u8>,
    pcr0: Seq<u8>,
    chain_ok: bool,
    now: Option<u64>,
    state: Option<Map<Seq<u8>, u64>>,
)
    ensures
        spec_after_parse(cfg, p, model, input, output, nonce, pcr0, chain_ok, now, state).0 matches Ok(v)
            ==> v.receipt == Some(p.info),
{
}

/// A verdict's receipt summary reports the receipt's own claims: its
/// model, input and output hashes are the hexadecimal text of the claims'
/// hashes, and its sequence number and time are the claims'.  For an
/// accepted receipt, the hashes reported are those that were expected.
pub proof fn lemma_reported_receipt(
    cfg: VerifierConfig,
    receipt: Seq<u8>,
    model: Seq<u8>,
    input: Seq<u8>,
    output: Seq<u8>,
    nonce: Seq<u8>,
    pcr0: Seq<u8>,
    chain_ok: bool,
    now: Option<u64>,
    state: Option<Map<Seq<u8>, u64>>,
)
    ensures
        spec_verify(cfg, receipt, model, input, output, nonce, pcr0, chain_ok, now, state).0 matches Ok(v) ==> (
        v.receipt matches Some(info) ==> reports_claims(receipt, info)),
        accepted(spec_verify(cfg, receipt, model, input, output, nonce, pcr0, chain_ok, now, state).0) ==> (
        spec_verify(cfg, receipt, model, input, output, nonce, pcr0, chain_ok, now, state).0 matches Ok(v)
            && v.receipt matches Some(info) && info.model_hash == spec_hex(model) && info.input_hash == spec_hex(
            input,
        ) && info.output_hash == spec_hex(output)),
{
    reveal(spec_verify);
    lemma_parse_reports(cfg, receipt, pcr0.len());
    if let Ok(p) = spec_parse_receipt(cfg, receipt, pcr0.len()) {
        lemma_after_parse_reports(cfg, p, model, input, output, nonce, pcr0, chain_ok, now, state);
    }
    if accepted(spec_verify(cfg, receipt, model, input, output, nonce, pcr0, chain_ok, now, state).0) {
        lemma_accepted_receipt_passed_every_check(
            cfg,
            receipt,
            model,
            input,
            output,
            nonce,
            pcr0,
            chain_ok,
            now,
            state,
        );
    }
}

/// A stateless verifier keeps no sequence state.
pub proof fn lemma_stateless_keeps_no_state(
    cfg: VerifierConfig,
    receipt: Seq<u8>,
    model: Seq<u8>,
    input: Seq<u8>,
    output: Seq<u8>,
    nonce: Seq<u8>,
    pcr0: Seq<u8>,
    chain_ok: bool,
    now: Option<u64>,
)
    ensures
        spec_verify(cfg, receipt, model, input, output, nonce, pcr0, chain_ok, now, None).1 is None,
{
    reveal(spec_verify);
}

/// An accepted receipt's sequence number exceeds the last one accepted for
/// the same enclave identity, and becomes the new last.
pub proof fn lemma_sequence_increases(
    cfg: VerifierConfig,
    receipt: Seq<u8>,
    model: Seq<u8>,
    input: Seq<u8>,
    output: Seq<u8>,
    nonce: Seq<u8>,
    pcr0: Seq<u8>,
    chain_ok: bool,
    now: Option<u64>,
    state: Map<Seq<u8>, u64>,
)
    requires
        accepted(
            spec_verify(cfg, receipt, model, input, output, nonce, pcr0, chain_ok, now, Some(state)).0,
        ),
    ensures
        ({
            let p = spec_parse_receipt(cfg, receipt, pcr0.len())->Ok_0;
            let fp = spec_identity_fingerprint(p.doc);
            &&& state.contains_key(fp) ==> state[fp] < p.claims.sequence_num
            &&& spec_verify(cfg, receipt, model, input, output, nonce, pcr0, chain_ok, now, Some(state)).1
                == Some(state.insert(fp, p.claims.sequence_num))
        }),
{
    reveal(spec_verify);
    lemma_parse_shape(cfg, receipt, pcr0.len());
    let p = spec_parse_receipt(cfg, receipt, pcr0.len())->Ok_0;
    let c1 = p.checks.push(passed("Attestation Signature & Chain"@));
    lemma_time_checks_shape(cfg, p, c1, now);
    let t1 = spec_time_checks(cfg, p, c1, now)->Ok_0;
    lemma_binding_checks_shape(p, t1, model, input, output, nonce, pcr0);
}

} // verus!

verus! {

impl<P: AttestationProvider> Verifier<P> {
    /// A verifier with the default limits whose trusted roots are the
    /// certificates of a PEM text.
    pub fn from_pem(provider: P, pem_str: &str, stateful: bool) -> (r: Result<Self, String>)
        ensures
            match r {
                Ok(v) => {
                    &&& crate::pem::spec_pem_certs(crate::pem::spec_lines(pem_str@), Seq::empty(), Seq::empty(), false)
                        == Ok::<Seq<Seq<u8>>, crate::pem::TextFailure>(v.roots_view())
                    &&& v.config_view() == (VerifierConfig {
                        max_receipt_size: 65536,
                        max_clock_skew: 300,
                        max_receipt_age: 300,
                    })
                    &&& v.state_view() == (if stateful {
                        Some(Map::<Seq<u8>, u64>::empty())
                    } else {
                        None
                    })
                },
                Err(m) => crate::pem::spec_pem_certs(crate::pem::spec_lines(pem_str@), Seq::empty(), Seq::empty(), false)
                    matches Err(f) && crate::pem::text_failure_matches(f, m@),
            },
    {
        Self::from_pem_with_config(provider, pem_str, stateful, VerifierConfig::default())
    }

    /// A verifier with the given limits whose trusted roots are the
    /// certificates of a PEM text.
    pub fn from_pem_with_config(
        provider: P,
        pem_str: &str,
        stateful: bool,
        config: VerifierConfig,
    ) -> (r: Result<Self, String>)
        ensures
            match r {
                Ok(v) => {
                    &&& crate::pem::spec_pem_certs(crate::pem::spec_lines(pem_str@), Seq::empty(), Seq::empty(), false)
                        == Ok::<Seq<Seq<u8>>, crate::pem::TextFailure>(v.roots_view())
                    &&& v.config_view() == config
                    &&& v.state_view() == (if stateful {
                        Some(Map::<Seq<u8>, u64>::empty())
                    } else {
                        None
                    })
                },
                Err(m) => crate::pem::spec_pem_certs(crate::pem::spec_lines(pem_str@), Seq::empty(), Seq::empty(), false)
                    matches Err(f) && crate::pem::text_failure_matches(f, m@),
            },
    {
        match crate::pem::pem_certificates(pem_str) {
            Err(m) => Err(m),
            Ok(roots) => Ok(Self::new_with_config(provider, roots, stateful, config)),
        }
    }
}

} // verus!
