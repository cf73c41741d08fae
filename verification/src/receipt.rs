//! Receipt generation: a COSE_Sign1 envelope, signed with the enclave's
//! ephemeral Ed25519 key, around a claim set that binds the model, input
//! and output hashes, the client nonce and a hardware attestation document.

use vstd::prelude::*;
use vstd::utf8::*;
use crate::attestation::{AttestationProvider, doc_result_view, opt_seq};
use crate::cbor::{push_head, push_int, push_text, spec_encode_head, spec_encode_int, spec_encode_text};
use crate::claims::{encode_claims, spec_encode_claims};
use crate::cose::{encode_sign1, sig_structure, spec_encode_sign1, spec_sig_structure};
use crate::crypto::{
    ed25519_public, ed25519_sign, random_bytes32, spec_ed25519_public, spec_ed25519_sign,
    unix_time_now,
};
use crate::error::{AttestationErrorView, VerifyError, VerifyErrorView, spec_attestation_message};
use crate::types::{ClaimsModel, VeriClaims, ATTESTATION_TYPE_NITRO};
use crate::verify::{
    VerifierConfig, abs, accepted, compute_report_data, spec_binding_checks, spec_header_error,
    spec_identity_fingerprint, spec_parse_receipt, spec_report_data, spec_signature_ok,
    spec_time_checks, spec_verify,
};
use crate::cose::{ALG_EDDSA, CoseAlg, CoseHeader, spec_decode_sign1};
use crate::doc::spec_decode_doc;
use crate::types::{DocModel, pcr_lookup};

verus! {

/// The SDK version that generated receipts carry.
pub const SDK_VERSION: &'static str = "0.1.0";

/// The protected header of a receipt: `{1: -8 (EdDSA), 3: "application/cwt"}`.
pub open spec fn spec_receipt_protected() -> Seq<u8> {
    crate::cose::spec_eddsa_cwt_header()
}

/// The protected header of a receipt.
pub fn receipt_protected_header() -> (r: Vec<u8>)
    ensures
        r@ == spec_receipt_protected(),
{
    let mut out: Vec<u8> = Vec::new();
    push_head(&mut out, 5, 2);
    push_int(&mut out, 1);
    push_int(&mut out, -8);
    push_int(&mut out, 3);
    push_text(&mut out, "application/cwt");
    assert(out@ =~= spec_receipt_protected());
    out
}

/// The claim set of a receipt.
pub open spec fn spec_receipt_claims(
    pubkey: Seq<u8>,
    report: Seq<u8>,
    sequence_num: u64,
    timestamp: i64,
    model: Seq<u8>,
    input: Seq<u8>,
    output: Seq<u8>,
    nonce: Seq<u8>,
) -> ClaimsModel {
    ClaimsModel {
        model_hash: model,
        input_hash: input,
        output_hash: output,
        client_nonce: nonce,
        sequence_num,
        attestation_report: report,
        attestation_type: ATTESTATION_TYPE_NITRO,
        attestation_timestamp: timestamp,
        sdk_version: SDK_VERSION@,
        enclave_pubkey: pubkey,
    }
}

/// A receipt: the claim set under the receipt protected header, signed
/// with the secret key.
pub open spec fn spec_build_receipt(secret: Seq<u8>, claims: ClaimsModel) -> Seq<u8> {
    let payload = spec_encode_claims(claims);
    spec_encode_sign1(
        spec_receipt_protected(),
        payload,
        spec_ed25519_sign(secret, spec_sig_structure(spec_receipt_protected(), payload)),
    )
}

/// The receipt's signature verifies under the key that its claims name,
/// and key and signature have their sizes.
pub open spec fn receipt_well_signed(secret: Seq<u8>, claims: ClaimsModel) -> bool {
    let tbs = spec_sig_structure(spec_receipt_protected(), spec_encode_claims(claims));
    let sig = spec_ed25519_sign(secret, tbs);
    &&& claims.enclave_pubkey.len() == 32
    &&& sig.len() == 64
    &&& crate::crypto::spec_ed25519_verify(claims.enclave_pubkey, tbs, sig)
}

/// Builds and signs the receipt for a claim set.
pub fn build_receipt(secret: &[u8; 32], claims: &VeriClaims) -> (r: Vec<u8>)
    ensures
        r@ == spec_build_receipt(secret@, claims@),
        claims@.enclave_pubkey == spec_ed25519_public(secret@) ==> receipt_well_signed(
            secret@,
            claims@,
        ),
{
    let payload = encode_claims(claims);
    let protected = receipt_protected_header();
    let tbs = sig_structure(protected.as_slice(), payload.as_slice());
    let sig = ed25519_sign(secret, tbs.as_slice());
    encode_sign1(protected.as_slice(), payload.as_slice(), &sig)
}

/// Generates signed receipts for one enclave key, numbering them from 0.
pub struct ReceiptGenerator<P: AttestationProvider> {
    provider: P,
    secret: [u8; 32],
    sequence_num: u64,
}

impl<P: AttestationProvider> ReceiptGenerator<P> {
    /// The secret Ed25519 key.
    pub closed spec fn secret_view(&self) -> Seq<u8> {
        self.secret@
    }

    /// The sequence number of the next receipt.
    pub closed spec fn next_sequence(&self) -> u64 {
        self.sequence_num
    }

    /// The attestation provider.
    pub closed spec fn provider_view(&self) -> P {
        self.provider
    }

    /// A generator with a fresh random Ed25519 key, or `None` when the
    /// operating system's random source fails.
    pub fn new(provider: P) -> (g: Option<Self>)
        ensures
            g matches Some(g) ==> {
                &&& g.next_sequence() == 0
                &&& g.secret_view().len() == 32
                &&& g.provider_view() == provider
            },
    {
        match random_bytes32() {
            Some(secret) => Some(ReceiptGenerator { provider, secret, sequence_num: 0 }),
            None => None,
        }
    }

    /// A generator with the given Ed25519 secret key.
    pub fn with_key(provider: P, secret: [u8; 32]) -> (g: Self)
        ensures
            g.next_sequence() == 0,
            g.secret_view() == secret@,
            g.provider_view() == provider,
    {
        ReceiptGenerator { provider, secret, sequence_num: 0 }
    }

    /// A generator whose next receipt has sequence number `next`.
    pub fn with_sequence(provider: P, secret: [u8; 32], next: u64) -> (g: Self)
        ensures
            g.next_sequence() == next,
            g.secret_view() == secret@,
            g.provider_view() == provider,
    {
        ReceiptGenerator { provider, secret, sequence_num: next }
    }

    /// The raw public key of the enclave's ephemeral key pair.
    pub fn public_key_bytes(&self) -> (r: [u8; 32])
        ensures
            r@ == spec_ed25519_public(self.secret_view()),
    {
        ed25519_public(&self.secret)
    }

    /// The REPORTDATA that binds the public key:
    /// `SHA-512(0x01 || "VeriAI-KeyBind-v1" || public key)`.
    pub fn compute_report_data(&self) -> (r: [u8; 64])
        ensures
            r@ == spec_report_data(spec_ed25519_public(self.secret_view())),
    {
        let pk = self.public_key_bytes();
        compute_report_data(&pk)
    }

    /// Finishes a receipt around the attestation report `report`, at the
    /// clock reading `now` (whole seconds since the epoch; `None` when the
    /// clock reads before it): an exhausted sequence fails without
    /// wrapping; otherwise the sequence number is consumed, and the receipt
    /// is built and signed unless the clock failed.
    pub fn finish_receipt(
        &mut self,
        report: Vec<u8>,
        now: Option<u64>,
        model_hash: [u8; 32],
        input_hash: [u8; 32],
        output_hash: [u8; 32],
        client_nonce: [u8; 32],
    ) -> (r: Result<Vec<u8>, VerifyError>)
        ensures
            (receipt_result_view(r), final(self).next_sequence()) == spec_finish_receipt(
                old(self).secret_view(),
                old(self).next_sequence(),
                report@,
                now,
                model_hash@,
                input_hash@,
                output_hash@,
                client_nonce@,
            ),
            r is Ok ==> (now matches Some(t) && receipt_well_signed(
                old(self).secret_view(),
                spec_receipt_claims(
                    spec_ed25519_public(old(self).secret_view()),
                    report@,
                    old(self).next_sequence(),
                    t as i64,
                    model_hash@,
                    input_hash@,
                    output_hash@,
                    client_nonce@,
                ),
            )),
            final(self).secret_view() == old(self).secret_view(),
            final(self).provider_view() == old(self).provider_view(),
    {
        let sequence_num = self.sequence_num;
        match sequence_num.checked_add(1) {
            None => return Err(VerifyError::SequenceNumberExhausted),
            Some(next) => {
                self.sequence_num = next;
            },
        }
        let now_sec: i64 = match now {
            None => {
                return Err(
                    VerifyError::InvalidAttestationDocument(
                        String::from_str("second time provided was later than self"),
                    ),
                )
            },
            Some(t) => t as i64,
        };
        let pubkey = self.public_key_bytes();
        let ghost rv = report@;
        let claims = VeriClaims {
            model_hash,
            input_hash,
            output_hash,
            client_nonce,
            sequence_num,
            attestation_report: report,
            attestation_type: ATTESTATION_TYPE_NITRO,
            attestation_timestamp: now_sec,
            sdk_version: String::from_str(SDK_VERSION),
            enclave_pubkey: pubkey,
        };
        assert(claims@ == spec_receipt_claims(
            spec_ed25519_public(old(self).secret_view()),
            rv,
            old(self).next_sequence(),
            now_sec,
            model_hash@,
            input_hash@,
            output_hash@,
            client_nonce@,
        ));
        let b = build_receipt(&self.secret, &claims);
        Ok(b)
    }

    /// Generates a signed receipt.  The provider is asked for a document
    /// with the REPORTDATA binding of the public key as user data, the
    /// client nonce as nonce and the public key itself; a provider failure
    /// is reported as an attestation error and consumes no sequence number.
    /// With the document, the receipt is finished at the clock reading, as
    /// `finish_receipt` does.
    pub fn generate_receipt(
        &mut self,
        model_hash: [u8; 32],
        input_hash: [u8; 32],
        output_hash: [u8; 32],
        client_nonce: [u8; 32],
    ) -> (r: Result<Vec<u8>, VerifyError>)
        ensures
            final(self).secret_view() == old(self).secret_view(),
            final(self).provider_view() == old(self).provider_view(),
            exists|doc: Result<Seq<u8>, AttestationErrorView>, now: Option<u64>|
                {
                    &&& old(self).provider_view().generated(
                        Some(spec_report_data(spec_ed25519_public(old(self).secret_view()))),
                        Some(client_nonce@),
                        Some(spec_ed25519_public(old(self).secret_view())),
                        doc,
                    )
                    &&& (receipt_result_view(r), final(self).next_sequence())
                        == #[trigger] spec_generation_outcome(
                        old(self).secret_view(),
                        old(self).next_sequence(),
                        doc,
                        now,
                        model_hash@,
                        input_hash@,
                        output_hash@,
                        client_nonce@,
                    )
                    &&& r is Ok ==> generation_signed(
                        old(self).secret_view(),
                        old(self).next_sequence(),
                        doc,
                        now,
                        model_hash@,
                        input_hash@,
                        output_hash@,
                        client_nonce@,
                    )
                },
    {
        let pubkey = self.public_key_bytes();
        let report_data = compute_report_data(&pubkey);
        let rd = report_data.as_slice();
        let cn = client_nonce.as_slice();
        let pkb = pubkey.as_slice();
        let res = self.provider.generate(Some(rd), Some(cn), Some(pkb));
        let ghost pk = pubkey@;
        let ghost doc = doc_result_view(res);
        assert(opt_seq(Some(rd)) == Some(spec_report_data(pk)));
        assert(opt_seq(Some(cn)) == Some(client_nonce@));
        assert(opt_seq(Some(pkb)) == Some(pk));
        let report = match res {
            Err(e) => {
                let r = Err(VerifyError::Attestation(e.message()));
                assert((receipt_result_view(r), self.next_sequence()) == spec_generation_outcome(
                    old(self).secret_view(),
                    old(self).next_sequence(),
                    doc,
                    None,
                    model_hash@,
                    input_hash@,
                    output_hash@,
                    client_nonce@,
                ));
                return r;
            },
            Ok(d) => d,
        };
        let now = match unix_time_now() {
            None => None,
            Some((s, _n)) => Some(s),
        };
        let r = self.finish_receipt(report, now, model_hash, input_hash, output_hash, client_nonce);
        assert((receipt_result_view(r), self.next_sequence()) == spec_generation_outcome(
            old(self).secret_view(),
            old(self).next_sequence(),
            doc,
            now,
            model_hash@,
            input_hash@,
            output_hash@,
            client_nonce@,
        ));
        r
    }
}

/// What generation gives back, and the next sequence number after it, for
/// the provider's answer `doc` and the clock reading `now`: a provider
/// error becomes an attestation error and leaves the sequence alone; a
/// document is finished into a receipt as `spec_finish_receipt` says.
pub open spec fn spec_generation_outcome(
    secret: Seq<u8>,
    sequence_num: u64,
    doc: Result<Seq<u8>, AttestationErrorView>,
    now: Option<u64>,
    model: Seq<u8>,
    input: Seq<u8>,
    output: Seq<u8>,
    nonce: Seq<u8>,
) -> (Result<Seq<u8>, VerifyErrorView>, u64) {
    match doc {
        Err(e) => (Err(VerifyErrorView::Attestation(spec_attestation_message(e))), sequence_num),
        Ok(report) => spec_finish_receipt(secret, sequence_num, report, now, model, input, output, nonce),
    }
}

/// Sequence numbers of one generator: a receipt carries the generator's
/// next number and moves it on by one; a provider failure spends no
/// number; an exhausted counter fails and stays exhausted, never wrapping.
pub proof fn lemma_generation_numbers(
    secret: Seq<u8>,
    sequence_num: u64,
    doc: Result<Seq<u8>, AttestationErrorView>,
    now: Option<u64>,
    model: Seq<u8>,
    input: Seq<u8>,
    output: Seq<u8>,
    nonce: Seq<u8>,
)
    ensures
        ({
            let (r, next) = spec_generation_outcome(secret, sequence_num, doc, now, model, input, output, nonce);
            &&& doc is Err ==> next == sequence_num
            &&& (doc is Ok && sequence_num == u64::MAX) ==> r == Err::<Seq<u8>, VerifyErrorView>(
                VerifyErrorView::SequenceNumberExhausted,
            ) && next == sequence_num
            &&& r is Ok ==> {
                &&& next == sequence_num + 1
                &&& doc matches Ok(report) && now matches Some(t) && r == Ok::<Seq<u8>, VerifyErrorView>(
                    spec_build_receipt(
                        secret,
                        spec_receipt_claims(
                            spec_ed25519_public(secret),
                            report,
                            sequence_num,
                            t as i64,
                            model,
                            input,
                            output,
                            nonce,
                        ),
                    ),
                )
            }
        }),
{
}

/// The receipt made from the provider's document at the clock reading
/// carries a signature that verifies under the enclave's public key.
pub open spec fn generation_signed(
    secret: Seq<u8>,
    sequence_num: u64,
    doc: Result<Seq<u8>, AttestationErrorView>,
    now: Option<u64>,
    model: Seq<u8>,
    input: Seq<u8>,
    output: Seq<u8>,
    nonce: Seq<u8>,
) -> bool {
    match (doc, now) {
        (Ok(report), Some(t)) => receipt_well_signed(
            secret,
            spec_receipt_claims(
                spec_ed25519_public(secret),
                report,
                sequence_num,
                t as i64,
                model,
                input,
                output,
                nonce,
            ),
        ),
        _ => true,
    }
}

/// A generation outcome as values.
pub open spec fn receipt_result_view(r: Result<Vec<u8>, VerifyError>) -> Result<Seq<u8>, VerifyErrorView> {
    match r {
        Ok(b) => Ok(b@),
        Err(e) => Err(e@),
    }
}

/// Finishing a receipt for the secret key, the next sequence number, the
/// attestation report and the clock reading: the outcome and the next
/// sequence number after it.
pub open spec fn spec_finish_receipt(
    secret: Seq<u8>,
    sequence_num: u64,
    report: Seq<u8>,
    now: Option<u64>,
    model: Seq<u8>,
    input: Seq<u8>,
    output: Seq<u8>,
    nonce: Seq<u8>,
) -> (Result<Seq<u8>, VerifyErrorView>, u64) {
    if sequence_num == u64::MAX {
        (Err(VerifyErrorView::SequenceNumberExhausted), sequence_num)
    } else {
        match now {
            None => (
                Err(VerifyErrorView::InvalidAttestationDocument("second time provided was later than self"@)),
                (sequence_num + 1) as u64,
            ),
            Some(t) => (
                Ok(
                    spec_build_receipt(
                        secret,
                        spec_receipt_claims(
                            spec_ed25519_public(secret),
                            report,
                            sequence_num,
                            t as i64,
                            model,
                            input,
                            output,
                            nonce,
                        ),
                    ),
                ),
                (sequence_num + 1) as u64,
            ),
        }
    }
}

} // verus!

verus! {

/// The attestation report carries the document `d`, which binds the
/// receipt key (as public key and through REPORTDATA), the client nonce and
/// PCR0.
pub open spec fn attestation_binds(
    report: Seq<u8>,
    pubkey: Seq<u8>,
    nonce: Seq<u8>,
    pcr0: Seq<u8>,
    d: DocModel,
) -> bool {
    &&& spec_decode_sign1(report) matches Some(a) && a.payload matches Some(ap) && spec_decode_doc(
        ap,
    ) == Ok::<DocModel, crate::doc::DocError>(d)
    &&& d.public_key == Some(pubkey)
    &&& d.user_data == Some(spec_report_data(pubkey))
    &&& d.nonce == Some(nonce)
    &&& pcr_lookup(d.pcrs, 0) == Some(pcr0)
    &&& pcr0.len() == 48
}

/// The clock `now`, the document time `doc_ms` and the receipt time `ts`
/// agree within the verifier's limits.
pub open spec fn times_agree(cfg: VerifierConfig, now: u64, doc_ms: u64, ts: i64) -> bool {
    let doc_sec = doc_ms / 1000;
    &&& now <= i64::MAX
    &&& abs(now - doc_sec) <= cfg.max_clock_skew
    &&& abs(now - ts) <= cfg.max_receipt_age
    &&& abs(doc_sec - ts) <= 5
}

proof fn lemma_receipt_decodes(secret: Seq<u8>, claims: ClaimsModel, limit: usize)
    requires
        spec_build_receipt(secret, claims).len() <= limit,
    ensures
        spec_decode_sign1(spec_build_receipt(secret, claims)) == Some(
            crate::cose::Sign1View {
                protected_bytes: spec_receipt_protected(),
                protected: CoseHeader {
                    alg: Some(CoseAlg::Int(ALG_EDDSA)),
                    crit: 0,
                    content_type: true,
                    len: 2,
                },
                unprotected: crate::cose::empty_header(),
                payload: Some(spec_encode_claims(claims)),
                signature: spec_ed25519_sign(
                    secret,
                    spec_sig_structure(spec_receipt_protected(), spec_encode_claims(claims)),
                ),
            },
        ),
{
    let payload = spec_encode_claims(claims);
    let p = spec_receipt_protected();
    let sig = spec_ed25519_sign(secret, spec_sig_structure(p, payload));
    let receipt = spec_build_receipt(secret, claims);
    crate::cose::lemma_eddsa_cwt_header();
    assert(receipt == spec_encode_sign1(p, payload, sig));
    assert(payload.len() <= receipt.len());
    assert(sig.len() <= receipt.len());
    crate::cose::lemma_decode_sign1_enc(
        p,
        payload,
        sig,
        CoseHeader { alg: Some(CoseAlg::Int(ALG_EDDSA)), crit: 0, content_type: true, len: 2 },
    );
}

proof fn lemma_receipt_parses(cfg: VerifierConfig, secret: Seq<u8>, claims: ClaimsModel, d: DocModel, pcr0: Seq<u8>)
    requires
        receipt_well_signed(secret, claims),
        claims.wf(),
        claims.attestation_type == ATTESTATION_TYPE_NITRO,
        claims.attestation_report.len() < 0x1_0000_0000_0000_0000,
        encode_utf8(claims.sdk_version).len() < 0x1_0000_0000_0000_0000,
        attestation_binds(claims.attestation_report, claims.enclave_pubkey, claims.client_nonce, pcr0, d),
        spec_build_receipt(secret, claims).len() <= cfg.max_receipt_size,
    ensures
        spec_parse_receipt(cfg, spec_build_receipt(secret, claims), pcr0.len()) matches Ok(pv)
            && pv.claims == claims && pv.doc == d,
{
    let payload = spec_encode_claims(claims);
    let receipt = spec_build_receipt(secret, claims);
    lemma_receipt_decodes(secret, claims, cfg.max_receipt_size);
    crate::claims::lemma_claims_roundtrip(claims);
    let m = spec_decode_sign1(receipt)->Some_0;
    assert(spec_header_error(m) is None);
    assert(spec_signature_ok(m, payload, claims.enclave_pubkey));
}

proof fn lemma_times_pass(cfg: VerifierConfig, pv: crate::verify::ParsedView, c: Seq<crate::types::CheckView>, now: u64)
    requires
        times_agree(cfg, now, pv.doc.timestamp, pv.claims.attestation_timestamp),
    ensures
        spec_time_checks(cfg, pv, c, Some(now)) is Ok,
{
    assert(now as i64 == now);
    assert((pv.doc.timestamp / 1000) as i64 == pv.doc.timestamp / 1000);
}

proof fn lemma_bindings_pass(pv: crate::verify::ParsedView, c: Seq<crate::types::CheckView>, pcr0: Seq<u8>)
    requires
        pv.doc.public_key == Some(pv.claims.enclave_pubkey),
        pv.doc.user_data == Some(spec_report_data(pv.claims.enclave_pubkey)),
        pv.doc.nonce == Some(pv.claims.client_nonce),
        pcr_lookup(pv.doc.pcrs, 0) == Some(pcr0),
    ensures
        spec_binding_checks(
            pv,
            c,
            pv.claims.model_hash,
            pv.claims.input_hash,
            pv.claims.output_hash,
            pv.claims.client_nonce,
            pcr0,
        ) is Ok,
{
}

/// A receipt built and signed for the expected model, input, output and
/// nonce is accepted when its attestation document binds it, the chain
/// verdict is positive, the clocks agree, it fits the size limit, and (for
/// a stateful verifier) its sequence number exceeds the last one accepted
/// for that enclave.
pub proof fn lemma_generated_receipt_accepted(
    cfg: VerifierConfig,
    secret: Seq<u8>,
    claims: ClaimsModel,
    d: DocModel,
    pcr0: Seq<u8>,
    now: u64,
    state: Option<Map<Seq<u8>, u64>>,
)
    requires
        receipt_well_signed(secret, claims),
        claims.wf(),
        claims.attestation_type == ATTESTATION_TYPE_NITRO,
        claims.attestation_report.len() < 0x1_0000_0000_0000_0000,
        encode_utf8(claims.sdk_version).len() < 0x1_0000_0000_0000_0000,
        attestation_binds(claims.attestation_report, claims.enclave_pubkey, claims.client_nonce, pcr0, d),
        times_agree(cfg, now, d.timestamp, claims.attestation_timestamp),
        spec_build_receipt(secret, claims).len() <= cfg.max_receipt_size,
        state matches Some(m) ==> (m.contains_key(spec_identity_fingerprint(d)) ==> m[spec_identity_fingerprint(d)]
            < claims.sequence_num),
    ensures
        accepted(
            spec_verify(
                cfg,
                spec_build_receipt(secret, claims),
                claims.model_hash,
                claims.input_hash,
                claims.output_hash,
                claims.client_nonce,
                pcr0,
                true,
                Some(now),
                state,
            ).0,
        ),
{
    reveal(spec_verify);
    let receipt = spec_build_receipt(secret, claims);
    lemma_receipt_parses(cfg, secret, claims, d, pcr0);
    let pv = spec_parse_receipt(cfg, receipt, pcr0.len())->Ok_0;
    let c1 = pv.checks.push(crate::verify::passed("Attestation Signature & Chain"@));
    lemma_times_pass(cfg, pv, c1, now);
    let c2 = spec_time_checks(cfg, pv, c1, Some(now))->Ok_0;
    lemma_bindings_pass(pv, c2, pcr0);
}

} // verus!
