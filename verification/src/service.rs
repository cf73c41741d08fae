//! The decisions of the verifier service that do not touch the network or
//! the disk: decoding requests, naming its side files, issued challenges,
//! and the configuration checks.

use vstd::prelude::*;
use vstd::utf8::*;
use crate::crypto::{base64_decode, hex_decode, spec_base64_decode, spec_hex_decode, unix_time_now};
use crate::pem::{TextFailure, prefixed_text, spec_trim, text_failure_matches, trim_text};
use crate::text::{push_decimal, spec_decimal};
use crate::attestation::{AttestationProvider, MockAttestationProvider, NitroAttestationProvider};
use crate::cli::{
    decodes_32, entries_hold, entries_view, fingerprints_distinct, hex_entries, holds_entry,
    lemma_listing_matches, same_entries, session_json, state_entries_view, state_lists,
};
use crate::crypto::{lemma_hex_round_trip, spec_hex};
use crate::json_state::{json_state_entries, json_state_text, lists_map, spec_json_state, spec_json_state_text};
use crate::error::{AttestationError, AttestationErrorView};

verus! {

/// Largest accepted request body, in bytes.
pub const MAX_REQUEST_BODY: usize = 131072;

/// How long an issued challenge stays valid, in seconds.
pub const CHALLENGE_TTL_SECONDS: u64 = 300;


/// Exactly 32 bytes of hexadecimal text.
pub open spec fn spec_decode_hex_32(s: Seq<char>) -> Result<Seq<u8>, TextFailure> {
    match spec_hex_decode(encode_utf8(s)) {
        None => Err(TextFailure::Prefixed("Hex decode failed: "@)),
        Some(b) => if b.len() != 32 {
            Err(TextFailure::Exact("Expected 32 bytes, got "@ + spec_decimal(b.len())))
        } else {
            Ok(b)
        },
    }
}

/// Decodes exactly 32 bytes of hexadecimal text.
pub fn decode_hex_32(s: &str) -> (r: Result<[u8; 32], String>)
    ensures
        match r {
            Ok(a) => spec_decode_hex_32(s@) == Ok::<Seq<u8>, TextFailure>(a@),
            Err(m) => spec_decode_hex_32(s@) matches Err(f) && text_failure_matches(f, m@),
        },
{
    let bytes = match hex_decode(s) {
        Err(e) => return Err(prefixed_text("Hex decode failed: ", e)),
        Ok(b) => b,
    };
    if bytes.len() != 32 {
        let mut m = String::from_str("Expected 32 bytes, got ");
        push_decimal(&mut m, bytes.len() as u64);
        return Err(m);
    }
    Ok(crate::claims::to_array32(bytes.as_slice()))
}

/// The expected PCR0: 48 bytes of hexadecimal text.
pub open spec fn spec_parse_expected_pcr0(s: Seq<char>) -> Result<Seq<u8>, TextFailure> {
    match spec_hex_decode(encode_utf8(s)) {
        None => Err(TextFailure::Prefixed("PCR0 is not valid hex: "@)),
        Some(b) => if b.len() != 48 {
            Err(TextFailure::Exact("PCR0 must be 48 bytes, got "@ + spec_decimal(b.len())))
        } else {
            Ok(b)
        },
    }
}

/// Decodes the expected PCR0 from its hexadecimal text.
pub fn parse_expected_pcr0(s: &str) -> (r: Result<Vec<u8>, String>)
    ensures
        match r {
            Ok(b) => spec_parse_expected_pcr0(s@) == Ok::<Seq<u8>, TextFailure>(b@),
            Err(m) => spec_parse_expected_pcr0(s@) matches Err(f) && text_failure_matches(f, m@),
        },
{
    let bytes = match hex_decode(s) {
        Err(e) => return Err(prefixed_text("PCR0 is not valid hex: ", e)),
        Ok(b) => b,
    };
    if bytes.len() != 48 {
        let mut m = String::from_str("PCR0 must be 48 bytes, got ");
        push_decimal(&mut m, bytes.len() as u64);
        return Err(m);
    }
    Ok(bytes)
}

/// A receipt sent as hexadecimal or, failing that, Base64 text.
pub open spec fn spec_decode_receipt_text(s: Seq<char>) -> Result<Seq<u8>, TextFailure> {
    match spec_hex_decode(encode_utf8(s)) {
        Some(b) => Ok(b),
        None => match spec_base64_decode(s) {
            Some(b) => Ok(b),
            None => Err(TextFailure::Prefixed("Invalid receipt encoding (must be hex or base64): "@)),
        },
    }
}

/// Decodes a receipt sent as hexadecimal or Base64 text.
pub fn decode_receipt_text(s: &str) -> (r: Result<Vec<u8>, String>)
    ensures
        match r {
            Ok(b) => spec_decode_receipt_text(s@) == Ok::<Seq<u8>, TextFailure>(b@),
            Err(m) => spec_decode_receipt_text(s@) matches Err(f) && text_failure_matches(f, m@),
        },
{
    match hex_decode(s) {
        Ok(b) => Ok(b),
        Err(_) => match base64_decode(s) {
            Ok(b) => Ok(b),
            Err(e) => Err(prefixed_text("Invalid receipt encoding (must be hex or base64): ", e)),
        },
    }
}

/// Text that is hexadecimal is read as hexadecimal, whatever Base64 would
/// make of it; so the hexadecimal text of any receipt reads back as that
/// receipt.
pub proof fn lemma_hex_receipt_text_reads_as_hex(s: Seq<char>, receipt: Seq<u8>)
    ensures
        spec_hex_decode(encode_utf8(s)) matches Some(b) ==> spec_decode_receipt_text(s) == Ok::<
            Seq<u8>,
            TextFailure,
        >(b),
        spec_decode_receipt_text(spec_hex(receipt)) == Ok::<Seq<u8>, TextFailure>(receipt),
{
    lemma_hex_round_trip(receipt);
}

/// A verification request after decoding.
#[derive(Debug, Clone)]
pub struct DecodedRequest {
    pub receipt: Vec<u8>,
    pub model_hash: [u8; 32],
    pub input_hash: [u8; 32],
    pub output_hash: [u8; 32],
    pub nonce: [u8; 32],
}

/// Why a verification request was refused: a stable code and a message.
#[derive(Debug, Clone)]
pub struct RequestError {
    pub code: &'static str,
    pub error: String,
}

/// Decodes the fields of a verification request, in order; the first
/// field that fails names the error.
pub fn decode_verify_request(
    receipt: &str,
    model_hash: &str,
    input_hash: &str,
    output_hash: &str,
    nonce: &str,
) -> (r: Result<DecodedRequest, RequestError>)
    ensures
        match r {
            Ok(d) => {
                &&& spec_decode_receipt_text(receipt@) == Ok::<Seq<u8>, TextFailure>(d.receipt@)
                &&& spec_decode_hex_32(model_hash@) == Ok::<Seq<u8>, TextFailure>(d.model_hash@)
                &&& spec_decode_hex_32(input_hash@) == Ok::<Seq<u8>, TextFailure>(d.input_hash@)
                &&& spec_decode_hex_32(output_hash@) == Ok::<Seq<u8>, TextFailure>(d.output_hash@)
                &&& spec_decode_hex_32(nonce@) == Ok::<Seq<u8>, TextFailure>(d.nonce@)
            },
            Err(e) => if spec_decode_receipt_text(receipt@) is Err {
                e.code@ == "invalid_encoding"@
            } else if spec_decode_hex_32(model_hash@) is Err {
                e.code@ == "invalid_model_hash"@
            } else if spec_decode_hex_32(input_hash@) is Err {
                e.code@ == "invalid_input_hash"@
            } else if spec_decode_hex_32(output_hash@) is Err {
                e.code@ == "invalid_output_hash"@
            } else {
                spec_decode_hex_32(nonce@) is Err && e.code@ == "invalid_nonce"@
            },
        },
{
    let r = match decode_receipt_text(receipt) {
        Err(m) => return Err(RequestError { code: "invalid_encoding", error: m }),
        Ok(b) => b,
    };
    let m = match decode_hex_32(model_hash) {
        Err(e) => {
            let error = String::from_str("Invalid model_hash: ").concat(e.as_str());
            return Err(RequestError { code: "invalid_model_hash", error });
        },
        Ok(a) => a,
    };
    let i = match decode_hex_32(input_hash) {
        Err(e) => {
            let error = String::from_str("Invalid input_hash: ").concat(e.as_str());
            return Err(RequestError { code: "invalid_input_hash", error });
        },
        Ok(a) => a,
    };
    let o = match decode_hex_32(output_hash) {
        Err(e) => {
            let error = String::from_str("Invalid output_hash: ").concat(e.as_str());
            return Err(RequestError { code: "invalid_output_hash", error });
        },
        Ok(a) => a,
    };
    let n = match decode_hex_32(nonce) {
        Err(e) => {
            let error = String::from_str("Invalid nonce: ").concat(e.as_str());
            return Err(RequestError { code: "invalid_nonce", error });
        },
        Ok(a) => a,
    };
    Ok(DecodedRequest { receipt: r, model_hash: m, input_hash: i, output_hash: o, nonce: n })
}

/// The last component of a path, where it has one in UTF-8.
pub uninterp spec fn spec_path_file_name(p: Seq<char>) -> Option<Seq<char>>;

/// The path without its last component, where it has one.
pub uninterp spec fn spec_path_parent(p: Seq<char>) -> Option<Seq<char>>;

/// `dir` joined with `name`.
pub uninterp spec fn spec_path_join(dir: Seq<char>, name: Seq<char>) -> Seq<char>;

/// `Path::file_name` followed by `OsStr::to_str`.
#[verifier::external_body]
fn path_file_name(p: &str) -> (r: Option<String>)
    ensures
        match r {
            Some(n) => spec_path_file_name(p@) == Some(n@),
            None => spec_path_file_name(p@) is None,
        },
{
    std::path::Path::new(p).file_name().and_then(|n| n.to_str()).map(|n| n.to_string())
}

/// `Path::parent`, as text.
#[verifier::external_body]
fn path_parent(p: &str) -> (r: Option<String>)
    ensures
        match r {
            Some(d) => spec_path_parent(p@) == Some(d@),
            None => spec_path_parent(p@) is None,
        },
{
    std::path::Path::new(p).parent().map(|d| d.to_string_lossy().into_owned())
}

/// `Path::join`, as text.
#[verifier::external_body]
fn path_join(dir: &str, name: &str) -> (r: String)
    ensures
        r@ == spec_path_join(dir@, name@),
{
    std::path::Path::new(dir).join(name).to_string_lossy().into_owned()
}

/// The side file `.NAME.SUFFIX` next to the state file `state_path`.
pub open spec fn spec_side_path(state_path: Seq<char>, suffix: Seq<char>) -> Result<Seq<char>, Seq<char>> {
    match spec_path_file_name(state_path) {
        None => Err("state file path must end in a file name"@),
        Some(name) => Ok(
            spec_path_join(
                match spec_path_parent(state_path) {
                    Some(d) => d,
                    None => "."@,
                },
                "."@ + name + suffix,
            ),
        ),
    }
}

fn side_path(state_path: &str, suffix: &str) -> (r: Result<String, String>)
    ensures
        match r {
            Ok(p) => spec_side_path(state_path@, suffix@) == Ok::<Seq<char>, Seq<char>>(p@),
            Err(m) => spec_side_path(state_path@, suffix@) == Err::<Seq<char>, Seq<char>>(m@),
        },
{
    let name = match path_file_name(state_path) {
        None => return Err(String::from_str("state file path must end in a file name")),
        Some(n) => n,
    };
    let dir = match path_parent(state_path) {
        Some(d) => d,
        None => String::from_str("."),
    };
    let file = String::from_str(".").concat(name.as_str()).concat(suffix);
    Ok(path_join(dir.as_str(), file.as_str()))
}

/// The lock file that serialises writers of the replay state file:
/// `.NAME.lock` beside it.
pub fn replay_lock_path(path: &str) -> (r: Result<String, String>)
    ensures
        match r {
            Ok(p) => spec_side_path(path@, ".lock"@) == Ok::<Seq<char>, Seq<char>>(p@),
            Err(m) => spec_side_path(path@, ".lock"@) == Err::<Seq<char>, Seq<char>>(m@),
        },
{
    side_path(path, ".lock")
}

/// The directory of issued challenges: `.NAME.challenges` beside the state
/// file.
pub fn challenge_directory(state_path: &str) -> (r: Result<String, String>)
    ensures
        match r {
            Ok(p) => spec_side_path(state_path@, ".challenges"@) == Ok::<Seq<char>, Seq<char>>(p@),
            Err(m) => spec_side_path(state_path@, ".challenges"@) == Err::<Seq<char>, Seq<char>>(m@),
        },
{
    side_path(state_path, ".challenges")
}

/// Whole seconds since the Unix epoch, from the system clock.
pub fn unix_seconds() -> (r: Result<u64, String>)
    ensures
        r matches Err(m) ==> m@ == "system clock error: second time provided was later than self"@,
{
    match unix_time_now() {
        Some((s, _n)) => Ok(s),
        None => Err(String::from_str("system clock error: second time provided was later than self")),
    }
}

/// When a challenge issued at `now` expires.
pub fn challenge_expiry(now: u64) -> (r: Option<u64>)
    ensures
        match r {
            Some(t) => t == now + CHALLENGE_TTL_SECONDS,
            None => now + CHALLENGE_TTL_SECONDS > u64::MAX,
        },
{
    now.checked_add(CHALLENGE_TTL_SECONDS)
}

/// The value of an ASCII decimal digit.
pub open spec fn digit_value(c: char) -> Option<nat> {
    if '0' <= c && c <= '9' {
        Some((c as nat - 48) as nat)
    } else {
        None
    }
}

/// The value of a run of decimal digits.
pub open spec fn spec_digits_value(s: Seq<char>) -> Option<nat>
    decreases s.len(),
{
    if s.len() == 0 {
        Some(0)
    } else {
        match (spec_digits_value(s.drop_last()), digit_value(s.last())) {
            (Some(v), Some(d)) => Some(v * 10 + d),
            _ => None,
        }
    }
}

/// An unsigned 64-bit integer in decimal as `u64::from_str` reads it: an
/// optional `+`, then at least one digit, with no overflow.
pub open spec fn spec_parse_u64(s: Seq<char>) -> Option<u64> {
    let digits = if s.len() > 0 && s[0] == '+' {
        s.drop_first()
    } else {
        s
    };
    if digits.len() == 0 {
        None
    } else {
        match spec_digits_value(digits) {
            Some(v) => if v <= u64::MAX {
                Some(v as u64)
            } else {
                None
            },
            None => None,
        }
    }
}

/// Reads an unsigned 64-bit decimal integer.
#[verifier::loop_isolation(false)]
pub fn parse_u64(s: &str) -> (r: Option<u64>)
    ensures
        r == spec_parse_u64(s@),
{
    let n = s.unicode_len();
    let start: usize = if n > 0 && s.get_char(0) == '+' {
        1
    } else {
        0
    };
    let ghost digits = s@.skip(start as int);
    assert(digits =~= (if s@.len() > 0 && s@[0] == '+' {
        s@.drop_first()
    } else {
        s@
    }));
    if start == n {
        return None;
    }
    let mut v: u64 = 0;
    let mut i: usize = start;
    assert(digits.take(0) =~= Seq::<char>::empty());
    while i < n
        invariant
            n == s@.len(),
            start <= i <= n,
            digits == s@.skip(start as int),
            spec_digits_value(digits.take(i - start)) == Some(v as nat),
        decreases n - i,
    {
        let c = s.get_char(i);
        assert(digits.take(i + 1 - start).drop_last() =~= digits.take(i - start));
        assert(digits.take(i + 1 - start).last() == c);
        if c < '0' || c > '9' {
            proof {
                assert(digit_value(c) is None);
                lemma_digits_none(digits, (i + 1 - start) as int);
            }
            return None;
        }
        let d: u64 = (c as u32 - 48) as u64;
        if v > (u64::MAX - d) / 10 {
            proof {
                assert(v * 10 + d > u64::MAX) by (nonlinear_arith)
                    requires
                        v > (u64::MAX - d) / 10,
                        d <= 9,
                ;
                assert(digit_value(c) == Some(d as nat));
                lemma_digits_big(digits, (i + 1 - start) as int);
            }
            return None;
        }
        assert(digit_value(c) == Some(d as nat));
        assert(v * 10 + d <= u64::MAX) by (nonlinear_arith)
            requires
                v <= (u64::MAX - d) / 10,
                d <= 9,
        ;
        v = v * 10 + d;
        i = i + 1;
    }
    assert(digits.take(n - start) =~= digits);
    Some(v)
}

proof fn lemma_digits_none(d: Seq<char>, k: int)
    requires
        0 < k <= d.len(),
        spec_digits_value(d.take(k)) is None,
    ensures
        spec_digits_value(d) is None,
    decreases d.len() - k,
{
    if k < d.len() {
        assert(d.take(k + 1).drop_last() =~= d.take(k));
        lemma_digits_none(d, k + 1);
    } else {
        assert(d.take(k) =~= d);
    }
}

proof fn lemma_digits_big(d: Seq<char>, k: int)
    requires
        0 < k <= d.len(),
        spec_digits_value(d.take(k)) matches Some(v) ==> v > u64::MAX,
    ensures
        spec_digits_value(d) matches Some(v) ==> v > u64::MAX,
    decreases d.len() - k,
{
    if k < d.len() {
        assert(d.take(k + 1).drop_last() =~= d.take(k));
        lemma_digits_big(d, k + 1);
    } else {
        assert(d.take(k) =~= d);
    }
}

/// The expiry time that a challenge record holds: trimmed decimal text.
pub fn parse_challenge_record(text: &str) -> (r: Result<u64, String>)
    ensures
        match r {
            Ok(t) => spec_parse_u64(spec_trim(text@)) == Some(t),
            Err(m) => spec_parse_u64(spec_trim(text@)) is None && m@ == "challenge record is invalid"@,
        },
{
    let t = trim_text(text);
    match parse_u64(t.as_str()) {
        Some(v) => Ok(v),
        None => Err(String::from_str("challenge record is invalid")),
    }
}

/// A challenge may be consumed at `now` if it has not expired.
pub fn check_challenge_expiry(now: u64, expires_at: u64) -> (r: Result<(), String>)
    ensures
        r is Ok <==> now <= expires_at,
        r matches Err(m) ==> m@ == "challenge has expired"@,
{
    if now > expires_at {
        return Err(String::from_str("challenge has expired"));
    }
    Ok(())
}

/// The configured trusted roots: on real hardware only approved AWS Nitro
/// roots are accepted; otherwise any bundle is.
pub fn validate_configured_roots(pem: &str, real_hardware: bool) -> (r: Result<(), String>)
    ensures
        !real_hardware ==> r is Ok,
        real_hardware ==> match r {
            Ok(()) => crate::pem::spec_root_scan(
                crate::pem::spec_clean_lines(crate::pem::spec_lines(pem@)),
                crate::pem::allow_view(crate::pem::AWS_NITRO_ROOT_FINGERPRINTS@),
                Seq::empty(),
                false,
                0,
            ) == Ok::<(), TextFailure>(()),
            Err(m) => crate::pem::spec_root_scan(
                crate::pem::spec_clean_lines(crate::pem::spec_lines(pem@)),
                crate::pem::allow_view(crate::pem::AWS_NITRO_ROOT_FINGERPRINTS@),
                Seq::empty(),
                false,
                0,
            ) matches Err(f) && text_failure_matches(f, m@),
        },
{
    if real_hardware {
        crate::pem::validate_aws_nitro_root_pem(pem)
    } else {
        Ok(())
    }
}

/// The replay state in a state file's entries: every fingerprint must be
/// 32 bytes of hexadecimal text.
pub open spec fn spec_replay_state(e: Seq<(Seq<char>, u64)>) -> Option<Seq<(Seq<u8>, u64)>>
    decreases e.len(),
{
    if e.len() == 0 {
        Some(Seq::empty())
    } else {
        match (spec_decode_hex_32(e[0].0), spec_replay_state(e.drop_first())) {
            (Ok(b), Some(rest)) => Some(seq![(b, e[0].1)] + rest),
            _ => None,
        }
    }
}

proof fn lemma_replay_none(e: Seq<(Seq<char>, u64)>, k: int)
    requires
        0 <= k <= e.len(),
        spec_replay_state(e.skip(k)) is None,
    ensures
        spec_replay_state(e) is None,
    decreases k,
{
    if k > 0 {
        assert(e.skip(k - 1).drop_first() =~= e.skip(k));
        lemma_replay_none(e, k - 1);
    } else {
        assert(e.skip(0) =~= e);
    }
}

/// Decodes the entries of a replay state file.
pub fn replay_state_from_entries(entries: &Vec<(String, u64)>) -> (r: Result<Vec<([u8; 32], u64)>, String>)
    ensures
        match r {
            Ok(v) => spec_replay_state(entries_view(entries@)) == Some(state_entries_view(v@)),
            Err(m) => spec_replay_state(entries_view(entries@)) is None && text_failure_matches(
                TextFailure::Prefixed("invalid identity fingerprint: "@),
                m@,
            ),
        },
{
    let ghost e = entries_view(entries@);
    let mut out: Vec<([u8; 32], u64)> = Vec::new();
    let mut i: usize = entries.len();
    assert(e.skip(e.len() as int) =~= Seq::<(Seq<char>, u64)>::empty());
    while i > 0
        invariant
            i <= entries@.len(),
            e == entries_view(entries@),
            spec_replay_state(e.skip(i as int)) == Some(state_entries_view(out@)),
        decreases i,
    {
        let k = i - 1;
        assert(e.skip(k as int).drop_first() =~= e.skip(i as int));
        assert(e.skip(k as int)[0] == (entries@[k as int].0@, entries@[k as int].1));
        let fp = match decode_hex_32(entries[k].0.as_str()) {
            Err(m) => {
                proof {
                    lemma_replay_none(e, k as int);
                }
                return Err(prefixed_text("invalid identity fingerprint: ", m));
            },
            Ok(a) => a,
        };
        let ghost before = out@;
        out.insert(0, (fp, entries[k].1));
        assert(state_entries_view(out@) =~= seq![(fp@, entries@[k as int].1)] + state_entries_view(
            before,
        ));
        i = k;
    }
    assert(e.skip(0) =~= e);
    Ok(out)
}

/// Reads a replay state file: a JSON object from hexadecimal identity
/// fingerprints to sequence numbers.  Text that is no such object, or a
/// fingerprint that is not 32 bytes of hexadecimal, is refused; otherwise
/// the state holds every entry of the object once.
pub fn replay_state_from_json(bytes: &[u8]) -> (r: Result<Vec<([u8; 32], u64)>, String>)
    ensures
        match r {
            Ok(v) => spec_json_state(bytes@) matches Some(m) && exists|e: Seq<(Seq<char>, u64)>|
                #[trigger] lists_map(e, m) && spec_replay_state(e) == Some(state_entries_view(v@)),
            Err(msg) => match spec_json_state(bytes@) {
                None => text_failure_matches(TextFailure::Prefixed("invalid state JSON: "@), msg@),
                Some(m) => exists|e: Seq<(Seq<char>, u64)>|
                    #[trigger] lists_map(e, m) && spec_replay_state(e) is None && text_failure_matches(
                        TextFailure::Prefixed("invalid identity fingerprint: "@),
                        msg@,
                    ),
            },
        },
{
    let entries = match json_state_entries(bytes) {
        Err(m) => return Err(prefixed_text("invalid state JSON: ", m)),
        Ok(v) => v,
    };
    let ghost e = entries_view(entries@);
    assert(lists_map(e, spec_json_state(bytes@)->0));
    replay_state_from_entries(&entries)
}

/// The text of a replay state file for a state: a JSON object from
/// hexadecimal fingerprints to sequence numbers, as the session files of
/// the command-line tool hold them.
pub fn replay_state_json(state: &Vec<([u8; 32], u64)>) -> (r: Vec<u8>)
    ensures
        r@ == spec_json_state_text(hex_entries(state@)),
        fingerprints_distinct(state@) ==> (spec_json_state(r@) matches Some(m) && lists_map(
            hex_entries(state@),
            m,
        )),
{
    session_json(state)
}

proof fn lemma_replay_all_ok(e: Seq<(Seq<char>, u64)>)
    requires
        forall|i: int| 0 <= i < e.len() ==> #[trigger] decodes_32(e[i].0),
    ensures
        spec_replay_state(e) == Some(
            Seq::new(e.len(), |i: int| (spec_hex_decode(encode_utf8(e[i].0))->Some_0, e[i].1)),
        ),
    decreases e.len(),
{
    if e.len() > 0 {
        let r = e.drop_first();
        assert forall|i: int| 0 <= i < r.len() implies #[trigger] decodes_32(r[i].0) by {
            assert(r[i] == e[i + 1]);
        }
        lemma_replay_all_ok(r);
        assert(decodes_32(e[0].0));
        assert(Seq::new(e.len(), |i: int| (spec_hex_decode(encode_utf8(e[i].0))->Some_0, e[i].1)) =~= seq![
            (spec_hex_decode(encode_utf8(e[0].0))->Some_0, e[0].1),
        ] + Seq::new(r.len(), |i: int| (spec_hex_decode(encode_utf8(r[i].0))->Some_0, r[i].1)));
    } else {
        assert(Seq::new(e.len(), |i: int| (spec_hex_decode(encode_utf8(e[i].0))->Some_0, e[i].1)) =~= Seq::<
            (Seq<u8>, u64),
        >::empty());
    }
}

proof fn lemma_replay_listing(state: Seq<([u8; 32], u64)>, m: Map<Seq<char>, u64>, e2: Seq<(Seq<char>, u64)>)
    requires
        lists_map(hex_entries(state), m),
        lists_map(e2, m),
    ensures
        spec_replay_state(e2) matches Some(v) && v.len() == e2.len() && same_entries(v, state_entries_view(state)),
{
    let h = hex_entries(state);
    lemma_listing_matches(state, m, e2);
    assert forall|i: int| 0 <= i < e2.len() implies #[trigger] decodes_32(e2[i].0) by {
        assert(state_lists(state, e2[i]));
        let j = choose|j: int| 0 <= j < state.len() && #[trigger] h[j] == e2[i];
        lemma_hex_round_trip(state[j].0@);
    }
    lemma_replay_all_ok(e2);
    let v = Seq::new(e2.len(), |i: int| (spec_hex_decode(encode_utf8(e2[i].0))->Some_0, e2[i].1));
    let sv = state_entries_view(state);
    assert forall|i: int| 0 <= i < v.len() implies holds_entry(sv, #[trigger] v[i]) by {
        assert(state_lists(state, e2[i]));
        let j = choose|j: int| 0 <= j < state.len() && #[trigger] h[j] == e2[i];
        lemma_hex_round_trip(state[j].0@);
        assert(v[i] == sv[j]);
    }
    assert forall|j: int| 0 <= j < sv.len() implies holds_entry(v, #[trigger] sv[j]) by {
        assert(entries_hold(e2, h[j]));
        let i = choose|i: int| 0 <= i < e2.len() && #[trigger] e2[i] == h[j];
        lemma_hex_round_trip(state[j].0@);
        assert(v[i] == sv[j]);
    }
    assert(spec_replay_state(e2) == Some(v));
    assert(same_entries(v, sv));
}

/// Saving the replay state and reading it back gives the state back: where
/// the JSON reader gives, for the saved bytes, the object that the state's
/// entries list (as `replay_state_json` promises of what it writes), every
/// listing of that object decodes, and holds exactly the state's entries.
/// So `replay_state_from_json` on the saved bytes succeeds with the saved
/// entries.
pub proof fn lemma_replay_state_round_trip(state: Seq<([u8; 32], u64)>, bytes: Seq<u8>)
    requires
        spec_json_state(bytes) matches Some(m) && lists_map(hex_entries(state), m),
    ensures
        forall|e2: Seq<(Seq<char>, u64)>| #[trigger] lists_map(e2, spec_json_state(bytes)->Some_0) ==> (
        spec_replay_state(e2) matches Some(v) && v.len() == e2.len() && same_entries(v, state_entries_view(state))),
{
    let m = spec_json_state(bytes)->Some_0;
    assert forall|e2: Seq<(Seq<char>, u64)>| #[trigger] lists_map(e2, m) implies (spec_replay_state(e2) matches Some(
        v,
    ) && v.len() == e2.len() && same_entries(v, state_entries_view(state))) by {
        lemma_replay_listing(state, m, e2);
    }
}

/// What the verify handler does once the verifier has answered.
#[derive(Debug, Clone, Copy, PartialEq, Eq)]
pub enum HandlerStep {
    /// The receipt was refused: put a reserved challenge back, write
    /// nothing, and answer with the result.
    RestoreChallenge,
    /// The receipt was accepted: write the replay state to the state file
    /// and come back with whether the write succeeded.
    PersistState,
    /// The write failed: put the state snapshot back into the verifier,
    /// put a reserved challenge back, and answer with `persist_failure`.
    RollBack,
    /// The verdict stands: consume a reserved challenge and answer with
    /// the result.
    ConsumeChallenge,
}

/// The handler's next step for the verdict `valid`, whether the service
/// keeps a state file, and what became of writing it (`None` before it
/// was tried).
pub open spec fn spec_after_verdict(valid: bool, state_file: bool, persisted: Option<bool>) -> HandlerStep {
    if !valid {
        HandlerStep::RestoreChallenge
    } else if !state_file {
        HandlerStep::ConsumeChallenge
    } else {
        match persisted {
            None => HandlerStep::PersistState,
            Some(true) => HandlerStep::ConsumeChallenge,
            Some(false) => HandlerStep::RollBack,
        }
    }
}

/// Decides the handler's next step after a verdict.
pub fn after_verdict(valid: bool, state_file: bool, persisted: Option<bool>) -> (r: HandlerStep)
    ensures
        r == spec_after_verdict(valid, state_file, persisted),
{
    if !valid {
        HandlerStep::RestoreChallenge
    } else if !state_file {
        HandlerStep::ConsumeChallenge
    } else {
        match persisted {
            None => HandlerStep::PersistState,
            Some(true) => HandlerStep::ConsumeChallenge,
            Some(false) => HandlerStep::RollBack,
        }
    }
}

/// An issued challenge is used up only by an accepted receipt whose state
/// was written (where the service keeps a state file); a refused receipt
/// writes nothing and gives its challenge back, and so does a failed write.
pub proof fn lemma_challenge_consumed_only_after_commit(valid: bool, state_file: bool, persisted: Option<bool>)
    ensures
        spec_after_verdict(valid, state_file, persisted) == HandlerStep::ConsumeChallenge ==> valid && (
        !state_file || persisted == Some(true)),
        !valid ==> spec_after_verdict(valid, state_file, persisted) == HandlerStep::RestoreChallenge,
        valid && state_file && persisted == Some(false) ==> spec_after_verdict(valid, state_file, persisted)
            == HandlerStep::RollBack,
{
}

/// The answer when an accepted receipt's state could not be written.
pub fn persist_failure() -> (e: RequestError)
    ensures
        e.code@ == "replay_state_error"@,
        e.error@ == "Verification succeeded but replay state could not be persisted"@,
{
    RequestError {
        code: "replay_state_error",
        error: String::from_str("Verification succeeded but replay state could not be persisted"),
    }
}

/// The attestation provider that the service runs with.
pub enum ServiceProvider {
    Nitro(NitroAttestationProvider),
    Mock(MockAttestationProvider),
}

impl AttestationProvider for ServiceProvider {
    open spec fn spec_name(&self) -> Seq<char> {
        match self {
            ServiceProvider::Nitro(p) => p.spec_name(),
            ServiceProvider::Mock(p) => p.spec_name(),
        }
    }

    open spec fn spec_hardware(&self) -> bool {
        match self {
            ServiceProvider::Nitro(p) => p.spec_hardware(),
            ServiceProvider::Mock(p) => p.spec_hardware(),
        }
    }

    open spec fn generated(
        &self,
        user_data: Option<Seq<u8>>,
        nonce: Option<Seq<u8>>,
        public_key: Option<Seq<u8>>,
        r: Result<Seq<u8>, AttestationErrorView>,
    ) -> bool {
        match self {
            ServiceProvider::Nitro(p) => p.generated(user_data, nonce, public_key, r),
            ServiceProvider::Mock(p) => p.generated(user_data, nonce, public_key, r),
        }
    }

    open spec fn verified(&self, doc: Seq<u8>, root: Seq<u8>, r: Result<bool, AttestationErrorView>) -> bool {
        match self {
            ServiceProvider::Nitro(p) => p.verified(doc, root, r),
            ServiceProvider::Mock(p) => p.verified(doc, root, r),
        }
    }

    fn name(&self) -> (r: &'static str) {
        match self {
            ServiceProvider::Nitro(p) => p.name(),
            ServiceProvider::Mock(p) => p.name(),
        }
    }

    fn is_hardware_backed(&self) -> (r: bool) {
        match self {
            ServiceProvider::Nitro(p) => p.is_hardware_backed(),
            ServiceProvider::Mock(p) => p.is_hardware_backed(),
        }
    }

    fn generate(
        &self,
        user_data: Option<&[u8]>,
        nonce: Option<&[u8]>,
        public_key: Option<&[u8]>,
    ) -> (r: Result<Vec<u8>, AttestationError>) {
        match self {
            ServiceProvider::Nitro(p) => p.generate(user_data, nonce, public_key),
            ServiceProvider::Mock(p) => p.generate(user_data, nonce, public_key),
        }
    }

    fn verify(&self, doc: &[u8], expected_root: &[u8]) -> (r: Result<bool, AttestationError>) {
        match self {
            ServiceProvider::Nitro(p) => p.verify(doc, expected_root),
            ServiceProvider::Mock(p) => p.verify(doc, expected_root),
        }
    }
}

/// The provider for the deployment: the Nitro hypervisor on real hardware,
/// otherwise the mock hypervisor.
pub fn configured_provider(real_hardware: bool, mock: MockAttestationProvider) -> (p: ServiceProvider)
    ensures
        real_hardware ==> p is Nitro,
        !real_hardware ==> p == ServiceProvider::Mock(mock),
{
    if real_hardware {
        ServiceProvider::Nitro(NitroAttestationProvider::new())
    } else {
        ServiceProvider::Mock(mock)
    }
}

} // verus!
