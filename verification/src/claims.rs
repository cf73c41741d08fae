//! CBOR encoding of the VeriAI claim set, with the decoder that the
//! verifier uses and a proof that decoding gives back what was encoded.

use vstd::prelude::*;
use vstd::utf8::*;
use crate::cbor::{
    MAX_DEPTH, at, lemma_at_concat, lemma_read_bytes_enc_array, lemma_read_i64_enc,
    lemma_read_text_enc, lemma_head_roundtrip, push_head, push_int, push_text, push_u8_array,
    read_bytes, read_head, read_i64, read_text, read_uint, item_end, spec_encode_head,
    spec_encode_int, spec_encode_text, spec_encode_u8_array, spec_head, spec_item_end,
    spec_read_bytes, spec_read_i64, spec_read_text, spec_read_uint,
};
use crate::types::{
    ClaimsModel, VeriClaims, CLAIM_ATTESTATION_REPORT, CLAIM_ATTESTATION_TIMESTAMP,
    CLAIM_ATTESTATION_TYPE, CLAIM_CLIENT_NONCE, CLAIM_ENCLAVE_PUBKEY, CLAIM_INPUT_HASH,
    CLAIM_MODEL_HASH, CLAIM_OUTPUT_HASH, CLAIM_SDK_VERSION, CLAIM_SEQUENCE_NUM,
};

verus! {

/// Why a claim set could not be decoded.
#[derive(Debug, Clone, Copy, PartialEq, Eq)]
pub enum ClaimsError {
    /// The bytes are not a well-formed data item.
    Syntax,
    /// The top-level item is not a map.
    NotAMap,
    /// A map key is not an integer that fits in an `i64`.
    BadKey,
    /// The value of this claim has the wrong type.
    BadValue(i64),
    /// This hash, nonce or key claim is not 32 bytes long.
    InvalidLength(i64),
    /// This claim key is reserved (6008 to 6010).
    Reserved(i64),
    /// This required claim is absent.
    Missing(i64),
}

/// Claims seen so far while reading a claim set.
pub struct ClaimSlots {
    pub model_hash: Option<Seq<u8>>,
    pub input_hash: Option<Seq<u8>>,
    pub output_hash: Option<Seq<u8>>,
    pub client_nonce: Option<Seq<u8>>,
    pub sequence_num: Option<u64>,
    pub attestation_report: Option<Seq<u8>>,
    pub attestation_type: Option<u64>,
    pub attestation_timestamp: Option<i64>,
    pub sdk_version: Option<Seq<char>>,
    pub enclave_pubkey: Option<Seq<u8>>,
}

pub open spec fn empty_slots() -> ClaimSlots {
    ClaimSlots {
        model_hash: None,
        input_hash: None,
        output_hash: None,
        client_nonce: None,
        sequence_num: None,
        attestation_report: None,
        attestation_type: None,
        attestation_timestamp: None,
        sdk_version: None,
        enclave_pubkey: None,
    }
}

/// Claim keys whose value is a 32-byte string.
pub open spec fn is_fixed_claim(k: int) -> bool {
    k == CLAIM_MODEL_HASH || k == CLAIM_INPUT_HASH || k == CLAIM_OUTPUT_HASH || k
        == CLAIM_CLIENT_NONCE || k == CLAIM_ENCLAVE_PUBKEY
}

pub open spec fn set_fixed(acc: ClaimSlots, k: int, b: Seq<u8>) -> ClaimSlots {
    if k == CLAIM_MODEL_HASH {
        ClaimSlots { model_hash: Some(b), ..acc }
    } else if k == CLAIM_INPUT_HASH {
        ClaimSlots { input_hash: Some(b), ..acc }
    } else if k == CLAIM_OUTPUT_HASH {
        ClaimSlots { output_hash: Some(b), ..acc }
    } else if k == CLAIM_CLIENT_NONCE {
        ClaimSlots { client_nonce: Some(b), ..acc }
    } else {
        ClaimSlots { enclave_pubkey: Some(b), ..acc }
    }
}

/// Reads one (key, value) entry of a claim set and records it; a later
/// entry for the same key replaces an earlier one, and unknown keys are
/// skipped.
#[verifier::opaque]
pub open spec fn spec_claim_entry(s: Seq<u8>, pos: int, acc: ClaimSlots) -> Result<
    (ClaimSlots, int),
    ClaimsError,
> {
    match spec_read_i64(s, pos) {
        None => Err(ClaimsError::BadKey),
        Some((k, p)) => if is_fixed_claim(k) {
            match spec_read_bytes(s, p) {
                None => Err(ClaimsError::BadValue(k as i64)),
                Some((b, e)) => if b.len() != 32 {
                    Err(ClaimsError::InvalidLength(k as i64))
                } else {
                    Ok((set_fixed(acc, k, b), e))
                },
            }
        } else if k == CLAIM_SEQUENCE_NUM || k == CLAIM_ATTESTATION_TYPE {
            match spec_read_uint(s, p) {
                None => Err(ClaimsError::BadValue(k as i64)),
                Some((v, e)) => if k == CLAIM_SEQUENCE_NUM {
                    Ok((ClaimSlots { sequence_num: Some(v as u64), ..acc }, e))
                } else {
                    Ok((ClaimSlots { attestation_type: Some(v as u64), ..acc }, e))
                },
            }
        } else if k == CLAIM_ATTESTATION_REPORT {
            match spec_read_bytes(s, p) {
                None => Err(ClaimsError::BadValue(k as i64)),
                Some((b, e)) => Ok((ClaimSlots { attestation_report: Some(b), ..acc }, e)),
            }
        } else if k == CLAIM_ATTESTATION_TIMESTAMP {
            match spec_read_i64(s, p) {
                None => Err(ClaimsError::BadValue(k as i64)),
                Some((v, e)) => Ok((ClaimSlots { attestation_timestamp: Some(v as i64), ..acc }, e)),
            }
        } else if k == CLAIM_SDK_VERSION {
            match spec_read_text(s, p) {
                None => Err(ClaimsError::BadValue(k as i64)),
                Some((t, e)) => Ok((ClaimSlots { sdk_version: Some(t), ..acc }, e)),
            }
        } else if 6008 <= k <= 6010 {
            Err(ClaimsError::Reserved(k as i64))
        } else {
            match spec_item_end(s, p, (MAX_DEPTH - 1) as nat) {
                None => Err(ClaimsError::Syntax),
                Some(e) => Ok((acc, e)),
            }
        },
    }
}

pub open spec fn spec_claim_entries(s: Seq<u8>, pos: int, count: nat, acc: ClaimSlots) -> Result<
    (ClaimSlots, int),
    ClaimsError,
>
    decreases count,
{
    if count == 0 {
        Ok((acc, pos))
    } else {
        match spec_claim_entry(s, pos, acc) {
            Ok((a, p)) => spec_claim_entries(s, p, (count - 1) as nat, a),
            Err(e) => Err(e),
        }
    }
}

/// The claim set once every entry is read: each claim is required.
pub open spec fn spec_claims_finish(a: ClaimSlots) -> Result<ClaimsModel, ClaimsError> {
    if a.model_hash is None {
        Err(ClaimsError::Missing(CLAIM_MODEL_HASH))
    } else if a.input_hash is None {
        Err(ClaimsError::Missing(CLAIM_INPUT_HASH))
    } else if a.output_hash is None {
        Err(ClaimsError::Missing(CLAIM_OUTPUT_HASH))
    } else if a.client_nonce is None {
        Err(ClaimsError::Missing(CLAIM_CLIENT_NONCE))
    } else if a.sequence_num is None {
        Err(ClaimsError::Missing(CLAIM_SEQUENCE_NUM))
    } else if a.attestation_report is None {
        Err(ClaimsError::Missing(CLAIM_ATTESTATION_REPORT))
    } else if a.attestation_type is None {
        Err(ClaimsError::Missing(CLAIM_ATTESTATION_TYPE))
    } else if a.attestation_timestamp is None {
        Err(ClaimsError::Missing(CLAIM_ATTESTATION_TIMESTAMP))
    } else if a.sdk_version is None {
        Err(ClaimsError::Missing(CLAIM_SDK_VERSION))
    } else if a.enclave_pubkey is None {
        Err(ClaimsError::Missing(CLAIM_ENCLAVE_PUBKEY))
    } else {
        Ok(
            ClaimsModel {
                model_hash: a.model_hash.unwrap(),
                input_hash: a.input_hash.unwrap(),
                output_hash: a.output_hash.unwrap(),
                client_nonce: a.client_nonce.unwrap(),
                sequence_num: a.sequence_num.unwrap(),
                attestation_report: a.attestation_report.unwrap(),
                attestation_type: a.attestation_type.unwrap(),
                attestation_timestamp: a.attestation_timestamp.unwrap(),
                sdk_version: a.sdk_version.unwrap(),
                enclave_pubkey: a.enclave_pubkey.unwrap(),
            },
        )
    }
}

/// The claim set that these bytes encode (bytes after the map are ignored).
pub open spec fn spec_decode_claims(s: Seq<u8>) -> Result<ClaimsModel, ClaimsError> {
    match spec_head(s, 0) {
        None => Err(ClaimsError::Syntax),
        Some((major, info, n, p)) => if major != 5 {
            Err(ClaimsError::NotAMap)
        } else {
            match spec_claim_entries(s, p, n, empty_slots()) {
                Ok((a, e)) => spec_claims_finish(a),
                Err(e) => Err(e),
            }
        },
    }
}

/// The bytes of a claim set: a map of ten entries in key order, byte
/// strings written as arrays of small integers.
#[verifier::opaque]
pub open spec fn spec_encode_claims(c: ClaimsModel) -> Seq<u8> {
    spec_encode_head(5, 10)
        + (spec_encode_int(CLAIM_MODEL_HASH as int) + spec_encode_u8_array(c.model_hash))
        + (spec_encode_int(CLAIM_INPUT_HASH as int) + spec_encode_u8_array(c.input_hash))
        + (spec_encode_int(CLAIM_OUTPUT_HASH as int) + spec_encode_u8_array(c.output_hash))
        + (spec_encode_int(CLAIM_CLIENT_NONCE as int) + spec_encode_u8_array(c.client_nonce))
        + (spec_encode_int(CLAIM_SEQUENCE_NUM as int) + spec_encode_int(c.sequence_num as int))
        + (spec_encode_int(CLAIM_ATTESTATION_REPORT as int) + spec_encode_u8_array(
        c.attestation_report,
    )) + (spec_encode_int(CLAIM_ATTESTATION_TYPE as int) + spec_encode_int(
        c.attestation_type as int,
    )) + (spec_encode_int(CLAIM_ATTESTATION_TIMESTAMP as int) + spec_encode_int(
        c.attestation_timestamp as int,
    )) + (spec_encode_int(CLAIM_SDK_VERSION as int) + spec_encode_text(c.sdk_version))
        + (spec_encode_int(CLAIM_ENCLAVE_PUBKEY as int) + spec_encode_u8_array(c.enclave_pubkey))
}

} // verus!

verus! {

/// Copies a 32-byte slice into an array.
pub fn to_array32(b: &[u8]) -> (r: [u8; 32])
    requires
        b@.len() == 32,
    ensures
        r@ == b@,
{
    let mut r = [0u8; 32];
    let mut i: usize = 0;
    while i < 32
        invariant
            b@.len() == 32,
            i <= 32,
            forall|j: int| 0 <= j < i ==> r@[j] == b@[j],
        decreases 32 - i,
    {
        r[i] = b[i];
        i = i + 1;
    }
    assert(r@ =~= b@);
    r
}

struct Slots {
    model_hash: Option<[u8; 32]>,
    input_hash: Option<[u8; 32]>,
    output_hash: Option<[u8; 32]>,
    client_nonce: Option<[u8; 32]>,
    sequence_num: Option<u64>,
    attestation_report: Option<Vec<u8>>,
    attestation_type: Option<u64>,
    attestation_timestamp: Option<i64>,
    sdk_version: Option<String>,
    enclave_pubkey: Option<[u8; 32]>,
}

spec fn opt_arr(o: Option<[u8; 32]>) -> Option<Seq<u8>> {
    match o {
        Some(a) => Some(a@),
        None => None,
    }
}

spec fn slots_view(a: Slots) -> ClaimSlots {
    ClaimSlots {
        model_hash: opt_arr(a.model_hash),
        input_hash: opt_arr(a.input_hash),
        output_hash: opt_arr(a.output_hash),
        client_nonce: opt_arr(a.client_nonce),
        sequence_num: a.sequence_num,
        attestation_report: match a.attestation_report {
            Some(v) => Some(v@),
            None => None,
        },
        attestation_type: a.attestation_type,
        attestation_timestamp: a.attestation_timestamp,
        sdk_version: match a.sdk_version {
            Some(t) => Some(t@),
            None => None,
        },
        enclave_pubkey: opt_arr(a.enclave_pubkey),
    }
}

fn claim_entry(s: &[u8], pos: usize, acc: &mut Slots) -> (r: Result<usize, ClaimsError>)
    ensures
        match r {
            Ok(e) => spec_claim_entry(s@, pos as int, slots_view(*old(acc))) == Ok::<
                (ClaimSlots, int),
                ClaimsError,
            >((slots_view(*final(acc)), e as int)),
            Err(x) => spec_claim_entry(s@, pos as int, slots_view(*old(acc))) == Err::<
                (ClaimSlots, int),
                ClaimsError,
            >(x),
        },
{
    reveal(spec_claim_entry);
    let (k, p) = match read_i64(s, pos) {
        None => return Err(ClaimsError::BadKey),
        Some(kp) => kp,
    };
    if k == CLAIM_MODEL_HASH || k == CLAIM_INPUT_HASH || k == CLAIM_OUTPUT_HASH || k
        == CLAIM_CLIENT_NONCE || k == CLAIM_ENCLAVE_PUBKEY {
        let (b, e) = match read_bytes(s, p) {
            None => return Err(ClaimsError::BadValue(k)),
            Some(be) => be,
        };
        if b.len() != 32 {
            return Err(ClaimsError::InvalidLength(k));
        }
        let arr = to_array32(b.as_slice());
        if k == CLAIM_MODEL_HASH {
            acc.model_hash = Some(arr);
        } else if k == CLAIM_INPUT_HASH {
            acc.input_hash = Some(arr);
        } else if k == CLAIM_OUTPUT_HASH {
            acc.output_hash = Some(arr);
        } else if k == CLAIM_CLIENT_NONCE {
            acc.client_nonce = Some(arr);
        } else {
            acc.enclave_pubkey = Some(arr);
        }
        Ok(e)
    } else if k == CLAIM_SEQUENCE_NUM || k == CLAIM_ATTESTATION_TYPE {
        let (v, e) = match read_uint(s, p) {
            None => return Err(ClaimsError::BadValue(k)),
            Some(ve) => ve,
        };
        if k == CLAIM_SEQUENCE_NUM {
            acc.sequence_num = Some(v);
        } else {
            acc.attestation_type = Some(v);
        }
        Ok(e)
    } else if k == CLAIM_ATTESTATION_REPORT {
        let (b, e) = match read_bytes(s, p) {
            None => return Err(ClaimsError::BadValue(k)),
            Some(be) => be,
        };
        acc.attestation_report = Some(b);
        Ok(e)
    } else if k == CLAIM_ATTESTATION_TIMESTAMP {
        let (v, e) = match read_i64(s, p) {
            None => return Err(ClaimsError::BadValue(k)),
            Some(ve) => ve,
        };
        acc.attestation_timestamp = Some(v);
        Ok(e)
    } else if k == CLAIM_SDK_VERSION {
        let (t, e) = match read_text(s, p) {
            None => return Err(ClaimsError::BadValue(k)),
            Some(te) => te,
        };
        acc.sdk_version = Some(t);
        Ok(e)
    } else if 6008 <= k && k <= 6010 {
        Err(ClaimsError::Reserved(k))
    } else {
        match item_end(s, p, MAX_DEPTH - 1) {
            None => Err(ClaimsError::Syntax),
            Some(e) => Ok(e),
        }
    }
}

/// Decodes a claim set from CBOR; bytes after the claim map are ignored.
pub(crate) fn decode_claims(s: &[u8]) -> (r: Result<VeriClaims, ClaimsError>)
    ensures
        match r {
            Ok(c) => spec_decode_claims(s@) == Ok::<ClaimsModel, ClaimsError>(c@),
            Err(x) => spec_decode_claims(s@) == Err::<ClaimsModel, ClaimsError>(x),
        },
{
    let (major, info, n, p0) = match read_head(s, 0) {
        None => return Err(ClaimsError::Syntax),
        Some(h) => h,
    };
    if major != 5 {
        return Err(ClaimsError::NotAMap);
    }
    let mut acc = Slots {
        model_hash: None,
        input_hash: None,
        output_hash: None,
        client_nonce: None,
        sequence_num: None,
        attestation_report: None,
        attestation_type: None,
        attestation_timestamp: None,
        sdk_version: None,
        enclave_pubkey: None,
    };
    let mut p = p0;
    let mut k: u64 = 0;
    while k < n
        invariant
            k <= n,
            major == 5,
            spec_head(s@, 0) == Some((major, info, n as nat, p0 as int)),
            spec_claim_entries(s@, p0 as int, n as nat, empty_slots()) == spec_claim_entries(
                s@,
                p as int,
                (n - k) as nat,
                slots_view(acc),
            ),
        decreases n - k,
    {
        let ghost before = slots_view(acc);
        match claim_entry(s, p, &mut acc) {
            Err(x) => {
                assert(spec_claim_entries(s@, p as int, (n - k) as nat, before) == Err::<
                    (ClaimSlots, int),
                    ClaimsError,
                >(x));
                assert(spec_claim_entries(s@, p0 as int, n as nat, empty_slots()) == Err::<
                    (ClaimSlots, int),
                    ClaimsError,
                >(x));
                assert(spec_decode_claims(s@) == Err::<ClaimsModel, ClaimsError>(x));
                return Err(x);
            },
            Ok(e) => {
                p = e;
                k = k + 1;
            },
        }
    }
    let model_hash = match acc.model_hash {
        None => return Err(ClaimsError::Missing(CLAIM_MODEL_HASH)),
        Some(v) => v,
    };
    let input_hash = match acc.input_hash {
        None => return Err(ClaimsError::Missing(CLAIM_INPUT_HASH)),
        Some(v) => v,
    };
    let output_hash = match acc.output_hash {
        None => return Err(ClaimsError::Missing(CLAIM_OUTPUT_HASH)),
        Some(v) => v,
    };
    let client_nonce = match acc.client_nonce {
        None => return Err(ClaimsError::Missing(CLAIM_CLIENT_NONCE)),
        Some(v) => v,
    };
    let sequence_num = match acc.sequence_num {
        None => return Err(ClaimsError::Missing(CLAIM_SEQUENCE_NUM)),
        Some(v) => v,
    };
    let attestation_report = match acc.attestation_report {
        None => return Err(ClaimsError::Missing(CLAIM_ATTESTATION_REPORT)),
        Some(v) => v,
    };
    let attestation_type = match acc.attestation_type {
        None => return Err(ClaimsError::Missing(CLAIM_ATTESTATION_TYPE)),
        Some(v) => v,
    };
    let attestation_timestamp = match acc.attestation_timestamp {
        None => return Err(ClaimsError::Missing(CLAIM_ATTESTATION_TIMESTAMP)),
        Some(v) => v,
    };
    let sdk_version = match acc.sdk_version {
        None => return Err(ClaimsError::Missing(CLAIM_SDK_VERSION)),
        Some(v) => v,
    };
    let enclave_pubkey = match acc.enclave_pubkey {
        None => return Err(ClaimsError::Missing(CLAIM_ENCLAVE_PUBKEY)),
        Some(v) => v,
    };
    Ok(
        VeriClaims {
            model_hash,
            input_hash,
            output_hash,
            client_nonce,
            sequence_num,
            attestation_report,
            attestation_type,
            attestation_timestamp,
            sdk_version,
            enclave_pubkey,
        },
    )
}

fn push_entry_u8_array(out: &mut Vec<u8>, k: i64, b: &[u8])
    ensures
        final(out)@ == old(out)@ + (spec_encode_int(k as int) + spec_encode_u8_array(b@)),
{
    push_int(out, k);
    push_u8_array(out, b);
    assert(final(out)@ =~= old(out)@ + (spec_encode_int(k as int) + spec_encode_u8_array(b@)));
}

fn push_entry_uint(out: &mut Vec<u8>, k: i64, v: u64)
    ensures
        final(out)@ == old(out)@ + (spec_encode_int(k as int) + spec_encode_int(v as int)),
{
    push_int(out, k);
    push_head(out, 0, v);
    assert(final(out)@ =~= old(out)@ + (spec_encode_int(k as int) + spec_encode_int(v as int)));
}

/// Encodes a claim set as CBOR.
pub(crate) fn encode_claims(c: &VeriClaims) -> (out: Vec<u8>)
    ensures
        out@ == spec_encode_claims(c@),
{
    let mut out: Vec<u8> = Vec::new();
    push_head(&mut out, 5, 10);
    let ghost e = spec_encode_head(5, 10);
    assert(out@ =~= e);
    push_entry_u8_array(&mut out, CLAIM_MODEL_HASH, c.model_hash.as_slice());
    let ghost e = e + (spec_encode_int(CLAIM_MODEL_HASH as int) + spec_encode_u8_array(c.model_hash@));
    push_entry_u8_array(&mut out, CLAIM_INPUT_HASH, c.input_hash.as_slice());
    let ghost e = e + (spec_encode_int(CLAIM_INPUT_HASH as int) + spec_encode_u8_array(c.input_hash@));
    push_entry_u8_array(&mut out, CLAIM_OUTPUT_HASH, c.output_hash.as_slice());
    let ghost e = e + (spec_encode_int(CLAIM_OUTPUT_HASH as int) + spec_encode_u8_array(c.output_hash@));
    push_entry_u8_array(&mut out, CLAIM_CLIENT_NONCE, c.client_nonce.as_slice());
    let ghost e = e + (spec_encode_int(CLAIM_CLIENT_NONCE as int) + spec_encode_u8_array(c.client_nonce@));
    push_entry_uint(&mut out, CLAIM_SEQUENCE_NUM, c.sequence_num);
    let ghost e = e + (spec_encode_int(CLAIM_SEQUENCE_NUM as int) + spec_encode_int(c.sequence_num as int));
    push_entry_u8_array(&mut out, CLAIM_ATTESTATION_REPORT, c.attestation_report.as_slice());
    let ghost e = e + (spec_encode_int(CLAIM_ATTESTATION_REPORT as int) + spec_encode_u8_array(c.attestation_report@));
    push_entry_uint(&mut out, CLAIM_ATTESTATION_TYPE, c.attestation_type);
    let ghost e = e + (spec_encode_int(CLAIM_ATTESTATION_TYPE as int) + spec_encode_int(c.attestation_type as int));
    let ghost before = out@;
    push_int(&mut out, CLAIM_ATTESTATION_TIMESTAMP);
    push_int(&mut out, c.attestation_timestamp);
    assert(out@ =~= before + (spec_encode_int(CLAIM_ATTESTATION_TIMESTAMP as int) + spec_encode_int(c.attestation_timestamp as int)));
    let ghost e = e + (spec_encode_int(CLAIM_ATTESTATION_TIMESTAMP as int) + spec_encode_int(c.attestation_timestamp as int));
    let ghost before = out@;
    push_int(&mut out, CLAIM_SDK_VERSION);
    push_text(&mut out, c.sdk_version.as_str());
    assert(out@ =~= before + (spec_encode_int(CLAIM_SDK_VERSION as int) + spec_encode_text(c.sdk_version@)));
    let ghost e = e + (spec_encode_int(CLAIM_SDK_VERSION as int) + spec_encode_text(c.sdk_version@));
    push_entry_u8_array(&mut out, CLAIM_ENCLAVE_PUBKEY, c.enclave_pubkey.as_slice());
    let ghost e = e + (spec_encode_int(CLAIM_ENCLAVE_PUBKEY as int) + spec_encode_u8_array(c.enclave_pubkey@));
    assert(e == spec_encode_claims(c@)) by {
        reveal(spec_encode_claims);
    }
    out
}

impl VeriClaims {
    /// Reads a claim set from its CBOR bytes.
    pub fn from_binary(bytes: &[u8]) -> (r: Result<VeriClaims, ClaimsError>)
        ensures
            match r {
                Ok(c) => spec_decode_claims(bytes@) == Ok::<ClaimsModel, ClaimsError>(c@),
                Err(x) => spec_decode_claims(bytes@) == Err::<ClaimsModel, ClaimsError>(x),
            },
    {
        decode_claims(bytes)
    }

    /// The CBOR bytes of the claim set; writing to memory cannot fail.
    pub fn to_binary(&self) -> (r: Result<Vec<u8>, ClaimsError>)
        ensures
            r matches Ok(b) && b@ == spec_encode_claims(self@),
    {
        Ok(encode_claims(self))
    }
}

} // verus!

verus! {

proof fn lemma_entry_fixed(s: Seq<u8>, pos: int, k: i64, b: Seq<u8>, acc: ClaimSlots)
    requires
        is_fixed_claim(k as int),
        b.len() == 32,
        at(s, pos, spec_encode_int(k as int) + spec_encode_u8_array(b)),
    ensures
        spec_claim_entry(s, pos, acc) == Ok::<(ClaimSlots, int), ClaimsError>(
            (set_fixed(acc, k as int, b), pos + (spec_encode_int(k as int) + spec_encode_u8_array(b)).len()),
        ),
{
    reveal(spec_claim_entry);
    lemma_at_concat(s, pos, spec_encode_int(k as int), spec_encode_u8_array(b));
    lemma_read_i64_enc(s, pos, k as int);
    lemma_read_bytes_enc_array(s, pos + spec_encode_int(k as int).len(), b);
}

proof fn lemma_entry_uint(s: Seq<u8>, pos: int, k: i64, v: u64, acc: ClaimSlots)
    requires
        k == CLAIM_SEQUENCE_NUM || k == CLAIM_ATTESTATION_TYPE,
        at(s, pos, spec_encode_int(k as int) + spec_encode_int(v as int)),
    ensures
        spec_claim_entry(s, pos, acc) == Ok::<(ClaimSlots, int), ClaimsError>(
            (
                if k == CLAIM_SEQUENCE_NUM {
                    ClaimSlots { sequence_num: Some(v), ..acc }
                } else {
                    ClaimSlots { attestation_type: Some(v), ..acc }
                },
                pos + (spec_encode_int(k as int) + spec_encode_int(v as int)).len(),
            ),
        ),
{
    reveal(spec_claim_entry);
    lemma_at_concat(s, pos, spec_encode_int(k as int), spec_encode_int(v as int));
    lemma_read_i64_enc(s, pos, k as int);
    crate::cbor::lemma_read_uint_enc(s, pos + spec_encode_int(k as int).len(), v as nat);
}

proof fn lemma_entry_report(s: Seq<u8>, pos: int, b: Seq<u8>, acc: ClaimSlots)
    requires
        b.len() < 0x1_0000_0000_0000_0000,
        at(s, pos, spec_encode_int(CLAIM_ATTESTATION_REPORT as int) + spec_encode_u8_array(b)),
    ensures
        spec_claim_entry(s, pos, acc) == Ok::<(ClaimSlots, int), ClaimsError>(
            (
                ClaimSlots { attestation_report: Some(b), ..acc },
                pos + (spec_encode_int(CLAIM_ATTESTATION_REPORT as int) + spec_encode_u8_array(
                    b,
                )).len(),
            ),
        ),
{
    reveal(spec_claim_entry);
    let k = CLAIM_ATTESTATION_REPORT as int;
    lemma_at_concat(s, pos, spec_encode_int(k), spec_encode_u8_array(b));
    lemma_read_i64_enc(s, pos, k);
    lemma_read_bytes_enc_array(s, pos + spec_encode_int(k).len(), b);
}

proof fn lemma_entry_timestamp(s: Seq<u8>, pos: int, v: i64, acc: ClaimSlots)
    requires
        at(s, pos, spec_encode_int(CLAIM_ATTESTATION_TIMESTAMP as int) + spec_encode_int(v as int)),
    ensures
        spec_claim_entry(s, pos, acc) == Ok::<(ClaimSlots, int), ClaimsError>(
            (
                ClaimSlots { attestation_timestamp: Some(v), ..acc },
                pos + (spec_encode_int(CLAIM_ATTESTATION_TIMESTAMP as int) + spec_encode_int(
                    v as int,
                )).len(),
            ),
        ),
{
    reveal(spec_claim_entry);
    let k = CLAIM_ATTESTATION_TIMESTAMP as int;
    lemma_at_concat(s, pos, spec_encode_int(k), spec_encode_int(v as int));
    lemma_read_i64_enc(s, pos, k);
    lemma_read_i64_enc(s, pos + spec_encode_int(k).len(), v as int);
}

proof fn lemma_entry_sdk(s: Seq<u8>, pos: int, t: Seq<char>, acc: ClaimSlots)
    requires
        encode_utf8(t).len() < 0x1_0000_0000_0000_0000,
        at(s, pos, spec_encode_int(CLAIM_SDK_VERSION as int) + spec_encode_text(t)),
    ensures
        spec_claim_entry(s, pos, acc) == Ok::<(ClaimSlots, int), ClaimsError>(
            (
                ClaimSlots { sdk_version: Some(t), ..acc },
                pos + (spec_encode_int(CLAIM_SDK_VERSION as int) + spec_encode_text(t)).len(),
            ),
        ),
{
    reveal(spec_claim_entry);
    let k = CLAIM_SDK_VERSION as int;
    lemma_at_concat(s, pos, spec_encode_int(k), spec_encode_text(t));
    lemma_read_i64_enc(s, pos, k);
    lemma_read_text_enc(s, pos + spec_encode_int(k).len(), t);
}

/// Decoding the encoding of a claim set gives the claim set back.
#[verifier::rlimit(50)]
pub proof fn lemma_claims_roundtrip(c: ClaimsModel)
    requires
        c.wf(),
        c.attestation_report.len() < 0x1_0000_0000_0000_0000,
        encode_utf8(c.sdk_version).len() < 0x1_0000_0000_0000_0000,
    ensures
        spec_decode_claims(spec_encode_claims(c)) == Ok::<ClaimsModel, ClaimsError>(c),
{
    reveal(spec_encode_claims);
    let s = spec_encode_claims(c);
    let h = spec_encode_head(5, 10);
    let e1 = spec_encode_int(CLAIM_MODEL_HASH as int) + spec_encode_u8_array(c.model_hash);
    let e2 = spec_encode_int(CLAIM_INPUT_HASH as int) + spec_encode_u8_array(c.input_hash);
    let e3 = spec_encode_int(CLAIM_OUTPUT_HASH as int) + spec_encode_u8_array(c.output_hash);
    let e4 = spec_encode_int(CLAIM_CLIENT_NONCE as int) + spec_encode_u8_array(c.client_nonce);
    let e5 = spec_encode_int(CLAIM_SEQUENCE_NUM as int) + spec_encode_int(c.sequence_num as int);
    let e6 = spec_encode_int(CLAIM_ATTESTATION_REPORT as int) + spec_encode_u8_array(
        c.attestation_report,
    );
    let e7 = spec_encode_int(CLAIM_ATTESTATION_TYPE as int) + spec_encode_int(
        c.attestation_type as int,
    );
    let e8 = spec_encode_int(CLAIM_ATTESTATION_TIMESTAMP as int) + spec_encode_int(
        c.attestation_timestamp as int,
    );
    let e9 = spec_encode_int(CLAIM_SDK_VERSION as int) + spec_encode_text(c.sdk_version);
    let e10 = spec_encode_int(CLAIM_ENCLAVE_PUBKEY as int) + spec_encode_u8_array(c.enclave_pubkey);
    let p9 = h + e1 + e2 + e3 + e4 + e5 + e6 + e7 + e8 + e9;
    let p8 = h + e1 + e2 + e3 + e4 + e5 + e6 + e7 + e8;
    let p7 = h + e1 + e2 + e3 + e4 + e5 + e6 + e7;
    let p6 = h + e1 + e2 + e3 + e4 + e5 + e6;
    let p5 = h + e1 + e2 + e3 + e4 + e5;
    let p4 = h + e1 + e2 + e3 + e4;
    let p3 = h + e1 + e2 + e3;
    let p2 = h + e1 + e2;
    let p1 = h + e1;
    assert(s == p9 + e10);
    assert(at(s, 0, s)) by {
        assert(s.subrange(0, s.len() as int) =~= s);
    }
    lemma_at_concat(s, 0, p9, e10);
    lemma_at_concat(s, 0, p8, e9);
    lemma_at_concat(s, 0, p7, e8);
    lemma_at_concat(s, 0, p6, e7);
    lemma_at_concat(s, 0, p5, e6);
    lemma_at_concat(s, 0, p4, e5);
    lemma_at_concat(s, 0, p3, e4);
    lemma_at_concat(s, 0, p2, e3);
    lemma_at_concat(s, 0, p1, e2);
    lemma_at_concat(s, 0, h, e1);
    lemma_head_roundtrip(s, 0, 5, 10);
    let a0 = empty_slots();
    lemma_entry_fixed(s, h.len() as int, CLAIM_MODEL_HASH, c.model_hash, a0);
    let a1 = set_fixed(a0, CLAIM_MODEL_HASH as int, c.model_hash);
    lemma_entry_fixed(s, p1.len() as int, CLAIM_INPUT_HASH, c.input_hash, a1);
    let a2 = set_fixed(a1, CLAIM_INPUT_HASH as int, c.input_hash);
    lemma_entry_fixed(s, p2.len() as int, CLAIM_OUTPUT_HASH, c.output_hash, a2);
    let a3 = set_fixed(a2, CLAIM_OUTPUT_HASH as int, c.output_hash);
    lemma_entry_fixed(s, p3.len() as int, CLAIM_CLIENT_NONCE, c.client_nonce, a3);
    let a4 = set_fixed(a3, CLAIM_CLIENT_NONCE as int, c.client_nonce);
    lemma_entry_uint(s, p4.len() as int, CLAIM_SEQUENCE_NUM, c.sequence_num, a4);
    let a5 = ClaimSlots { sequence_num: Some(c.sequence_num), ..a4 };
    lemma_entry_report(s, p5.len() as int, c.attestation_report, a5);
    let a6 = ClaimSlots { attestation_report: Some(c.attestation_report), ..a5 };
    lemma_entry_uint(s, p6.len() as int, CLAIM_ATTESTATION_TYPE, c.attestation_type, a6);
    let a7 = ClaimSlots { attestation_type: Some(c.attestation_type), ..a6 };
    lemma_entry_timestamp(s, p7.len() as int, c.attestation_timestamp, a7);
    let a8 = ClaimSlots { attestation_timestamp: Some(c.attestation_timestamp), ..a7 };
    lemma_entry_sdk(s, p8.len() as int, c.sdk_version, a8);
    let a9 = ClaimSlots { sdk_version: Some(c.sdk_version), ..a8 };
    lemma_entry_fixed(s, p9.len() as int, CLAIM_ENCLAVE_PUBKEY, c.enclave_pubkey, a9);
    let a10 = set_fixed(a9, CLAIM_ENCLAVE_PUBKEY as int, c.enclave_pubkey);
    assert(spec_claim_entries(s, s.len() as int, 0, a10) == Ok::<(ClaimSlots, int), ClaimsError>(
        (a10, s.len() as int),
    ));
    assert(spec_claim_entries(s, p9.len() as int, 1, a9) == spec_claim_entries(s, s.len() as int, 0, a10));
    assert(spec_claim_entries(s, p8.len() as int, 2, a8) == spec_claim_entries(s, p9.len() as int, 1, a9));
    assert(spec_claim_entries(s, p7.len() as int, 3, a7) == spec_claim_entries(s, p8.len() as int, 2, a8));
    assert(spec_claim_entries(s, p6.len() as int, 4, a6) == spec_claim_entries(s, p7.len() as int, 3, a7));
    assert(spec_claim_entries(s, p5.len() as int, 5, a5) == spec_claim_entries(s, p6.len() as int, 4, a6));
    assert(spec_claim_entries(s, p4.len() as int, 6, a4) == spec_claim_entries(s, p5.len() as int, 5, a5));
    assert(spec_claim_entries(s, p3.len() as int, 7, a3) == spec_claim_entries(s, p4.len() as int, 6, a4));
    assert(spec_claim_entries(s, p2.len() as int, 8, a2) == spec_claim_entries(s, p3.len() as int, 7, a3));
    assert(spec_claim_entries(s, p1.len() as int, 9, a1) == spec_claim_entries(s, p2.len() as int, 8, a2));
    assert(spec_claim_entries(s, h.len() as int, 10, a0) == spec_claim_entries(s, p1.len() as int, 9, a1));
    assert(spec_claims_finish(a10) == Ok::<ClaimsModel, ClaimsError>(c));
}

} // verus!
