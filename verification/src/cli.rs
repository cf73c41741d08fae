//! The command-line tool's logic: decoding of its hexadecimal arguments,
//! the report it prints for a receipt or a verification, and the session
//! file of sequence numbers that a stateful verification keeps.

use vstd::prelude::*;
use vstd::utf8::*;
use crate::claims::to_array32;
use crate::crypto::{
    hex_decode, hex_encode, lemma_hex_round_trip, random_bytes32, sha256, spec_hex, spec_hex_decode, spec_sha256,
};
use crate::pem::{TextFailure, prefixed_text, strings_view, text_failure_matches};
use crate::text::{push_decimal, push_int_text, spec_decimal, spec_int_text};
use crate::types::{CheckView, ClaimsModel, VeriClaims, VerificationCheck};
use crate::json_state::{
    json_state_entries, json_state_text, lists_map, names_distinct, spec_json_state, spec_json_state_text,
};

verus! {

/// Exactly 32 bytes of hexadecimal text.
pub open spec fn spec_parse_hex_32(s: Seq<char>) -> Result<Seq<u8>, TextFailure> {
    match spec_hex_decode(encode_utf8(s)) {
        None => Err(TextFailure::Prefixed("Invalid hex: "@)),
        Some(b) => if b.len() != 32 {
            Err(TextFailure::Exact("Expected 32 bytes, got "@ + spec_decimal(b.len())))
        } else {
            Ok(b)
        },
    }
}

/// Decodes a 32-byte hexadecimal argument.
pub fn parse_hex_32(s: &str) -> (r: Result<[u8; 32], String>)
    ensures
        match r {
            Ok(a) => spec_parse_hex_32(s@) == Ok::<Seq<u8>, TextFailure>(a@),
            Err(m) => spec_parse_hex_32(s@) matches Err(f) && text_failure_matches(f, m@),
        },
{
    let bytes = match hex_decode(s) {
        Err(e) => return Err(prefixed_text("Invalid hex: ", e)),
        Ok(b) => b,
    };
    if bytes.len() != 32 {
        let mut m = String::from_str("Expected 32 bytes, got ");
        push_decimal(&mut m, bytes.len() as u64);
        return Err(m);
    }
    Ok(to_array32(bytes.as_slice()))
}

/// Decodes a hexadecimal argument of any length.
pub fn parse_hex_any(s: &str) -> (r: Result<Vec<u8>, String>)
    ensures
        match r {
            Ok(b) => spec_hex_decode(encode_utf8(s@)) == Some(b@),
            Err(m) => spec_hex_decode(encode_utf8(s@)) is None && text_failure_matches(
                TextFailure::Prefixed("Invalid hex: "@),
                m@,
            ),
        },
{
    match hex_decode(s) {
        Err(e) => Err(prefixed_text("Invalid hex: ", e)),
        Ok(b) => Ok(b),
    }
}

/// The lines of the report on a receipt's claims.
pub open spec fn spec_inspection_lines(c: ClaimsModel) -> Seq<Seq<char>> {
    seq![
        "VeriAI Receipt Inspection"@,
        "-------------------------"@,
        "SDK Version:       "@ + c.sdk_version,
        "Model Merkle Root: "@ + spec_hex(c.model_hash),
        "Input Hash:        "@ + spec_hex(c.input_hash),
        "Output Hash:       "@ + spec_hex(c.output_hash),
        "Client Nonce:      "@ + spec_hex(c.client_nonce),
        "Sequence Number:   "@ + spec_decimal(c.sequence_num as nat),
        "Timestamp:         "@ + spec_int_text(c.attestation_timestamp as int),
        "Enclave Public Key:"@ + spec_hex(c.enclave_pubkey),
    ]
}

/// `line` is `label` followed by hexadecimal text that spells `b`.
pub open spec fn shows_hex(line: Seq<char>, label: Seq<char>, b: Seq<u8>) -> bool {
    &&& line.take(label.len() as int) == label
    &&& spec_hex_decode(encode_utf8(line.skip(label.len() as int))) == Some(b)
}

proof fn lemma_labelled_hex_shows(label: Seq<char>, b: Seq<u8>)
    ensures
        shows_hex(label + spec_hex(b), label, b),
{
    lemma_hex_round_trip(b);
    assert((label + spec_hex(b)).take(label.len() as int) =~= label);
    assert((label + spec_hex(b)).skip(label.len() as int) =~= spec_hex(b));
}

/// Each labelled line of the inspection report shows the claim it names:
/// after its label stands hexadecimal text that reads back as exactly that
/// claim's bytes (model root, input hash, output hash, client nonce,
/// enclave key), and the report has one line per claim after its header.
pub proof fn lemma_inspection_shows_each_claim(c: ClaimsModel)
    ensures
        spec_inspection_lines(c).len() == 10,
        shows_hex(spec_inspection_lines(c)[3], "Model Merkle Root: "@, c.model_hash),
        shows_hex(spec_inspection_lines(c)[4], "Input Hash:        "@, c.input_hash),
        shows_hex(spec_inspection_lines(c)[5], "Output Hash:       "@, c.output_hash),
        shows_hex(spec_inspection_lines(c)[6], "Client Nonce:      "@, c.client_nonce),
        shows_hex(spec_inspection_lines(c)[9], "Enclave Public Key:"@, c.enclave_pubkey),
{
    lemma_labelled_hex_shows("Model Merkle Root: "@, c.model_hash);
    lemma_labelled_hex_shows("Input Hash:        "@, c.input_hash);
    lemma_labelled_hex_shows("Output Hash:       "@, c.output_hash);
    lemma_labelled_hex_shows("Client Nonce:      "@, c.client_nonce);
    lemma_labelled_hex_shows("Enclave Public Key:"@, c.enclave_pubkey);
}

fn labelled_hex(label: &str, b: &[u8]) -> (r: String)
    ensures
        r@ == label@ + spec_hex(b@),
{
    String::from_str(label).concat(hex_encode(b).as_str())
}

/// The report on a receipt's claims, one line each.
pub fn inspection_lines(c: &VeriClaims) -> (r: Vec<String>)
    ensures
        strings_view(r@) == spec_inspection_lines(c@),
{
    let mut seq_line = String::from_str("Sequence Number:   ");
    push_decimal(&mut seq_line, c.sequence_num);
    let mut ts_line = String::from_str("Timestamp:         ");
    push_int_text(&mut ts_line, c.attestation_timestamp);
    let mut v: Vec<String> = Vec::new();
    v.push(String::from_str("VeriAI Receipt Inspection"));
    v.push(String::from_str("-------------------------"));
    v.push(String::from_str("SDK Version:       ").concat(c.sdk_version.as_str()));
    v.push(labelled_hex("Model Merkle Root: ", c.model_hash.as_slice()));
    v.push(labelled_hex("Input Hash:        ", c.input_hash.as_slice()));
    v.push(labelled_hex("Output Hash:       ", c.output_hash.as_slice()));
    v.push(labelled_hex("Client Nonce:      ", c.client_nonce.as_slice()));
    v.push(seq_line);
    v.push(ts_line);
    v.push(labelled_hex("Enclave Public Key:", c.enclave_pubkey.as_slice()));
    assert(strings_view(v@) =~= spec_inspection_lines(c@));
    v
}

/// The line that reports one check: a tick or a cross, its name and, where
/// it has them, its details in brackets.
pub open spec fn spec_check_line(c: CheckView) -> Seq<char> {
    let mark = if c.status == "passed"@ {
        "\u{2713} "@
    } else {
        "\u{2717} "@
    };
    match c.details {
        Some(d) => mark + c.name + " ("@ + d + ")"@,
        None => mark + c.name,
    }
}

/// The line that reports one check.
pub fn check_line(check: &VerificationCheck) -> (r: String)
    ensures
        r@ == spec_check_line(check@),
{
    let passed = crate::text::str_eq(check.status.as_str(), "passed");
    let mark = if passed {
        String::from_str("\u{2713} ")
    } else {
        String::from_str("\u{2717} ")
    };
    let line = mark.concat(check.name.as_str());
    match &check.details {
        Some(d) => line.concat(" (").concat(d.as_str()).concat(")"),
        None => line,
    }
}

/// The verdict line.
pub fn verdict_line(valid: bool) -> (r: &'static str)
    ensures
        r@ == (if valid {
            "Result: VERIFIED"@
        } else {
            "Result: FAILED"@
        }),
{
    if valid {
        "Result: VERIFIED"
    } else {
        "Result: FAILED"
    }
}

/// The session state in a file's entries: each fingerprint is hexadecimal
/// text; an entry whose fingerprint is not 32 bytes is skipped, and text
/// that is not hexadecimal is an error.
pub open spec fn spec_session_state(e: Seq<(Seq<char>, u64)>) -> Option<Seq<(Seq<u8>, u64)>>
    decreases e.len(),
{
    if e.len() == 0 {
        Some(Seq::empty())
    } else {
        match (spec_hex_decode(encode_utf8(e[0].0)), spec_session_state(e.drop_first())) {
            (Some(b), Some(rest)) => if b.len() == 32 {
                Some(seq![(b, e[0].1)] + rest)
            } else {
                Some(rest)
            },
            _ => None,
        }
    }
}

pub open spec fn entries_view(v: Seq<(String, u64)>) -> Seq<(Seq<char>, u64)> {
    v.map_values(|x: (String, u64)| (x.0@, x.1))
}

pub open spec fn state_entries_view(v: Seq<([u8; 32], u64)>) -> Seq<(Seq<u8>, u64)> {
    v.map_values(|x: ([u8; 32], u64)| (x.0@, x.1))
}

proof fn lemma_session_none(e: Seq<(Seq<char>, u64)>, k: int)
    requires
        0 <= k <= e.len(),
        spec_session_state(e.skip(k)) is None,
    ensures
        spec_session_state(e) is None,
    decreases k,
{
    if k > 0 {
        assert(e.skip(k - 1).drop_first() =~= e.skip(k));
        lemma_session_none(e, k - 1);
    } else {
        assert(e.skip(0) =~= e);
    }
}

/// Decodes the entries of a session file; the error is the first
/// fingerprint that is not hexadecimal, with the decoder's reason.
pub fn session_state(entries: &Vec<(String, u64)>) -> (r: Result<Vec<([u8; 32], u64)>, String>)
    ensures
        match r {
            Ok(v) => spec_session_state(entries_view(entries@)) == Some(state_entries_view(v@)),
            Err(_) => spec_session_state(entries_view(entries@)) is None,
        },
{
    let ghost e = entries_view(entries@);
    let mut out: Vec<([u8; 32], u64)> = Vec::new();
    let mut i: usize = entries.len();
    assert(e.skip(e.len() as int) =~= Seq::<(Seq<char>, u64)>::empty());
    while i > 0
        invariant
            i <= entries@.len(),
            e == entries_view(entries@),
            spec_session_state(e.skip(i as int)) == Some(state_entries_view(out@)),
        decreases i,
    {
        let k = i - 1;
        assert(e.skip(k as int).drop_first() =~= e.skip(i as int));
        assert(e.skip(k as int)[0] == (entries@[k as int].0@, entries@[k as int].1));
        let bytes = match hex_decode(entries[k].0.as_str()) {
            Err(m) => {
                proof {
                    lemma_session_none(e, k as int);
                }
                return Err(m);
            },
            Ok(b) => b,
        };
        if bytes.len() == 32 {
            let fp = to_array32(bytes.as_slice());
            let ghost before = out@;
            out.insert(0, (fp, entries[k].1));
            assert(state_entries_view(out@) =~= seq![(bytes@, entries@[k as int].1)]
                + state_entries_view(before));
        }
        i = k;
    }
    assert(e.skip(0) =~= e);
    Ok(out)
}

/// Reads a session file: a JSON object from hexadecimal fingerprints to
/// sequence numbers.  Text that is no such object, or a fingerprint that
/// is not hexadecimal, is refused; a fingerprint of another length than 32
/// bytes is passed over.
pub fn session_state_from_json(bytes: &[u8]) -> (r: Result<Vec<([u8; 32], u64)>, String>)
    ensures
        match r {
            Ok(v) => spec_json_state(bytes@) matches Some(m) && exists|e: Seq<(Seq<char>, u64)>|
                #[trigger] lists_map(e, m) && spec_session_state(e) == Some(state_entries_view(v@)),
            Err(_) => match spec_json_state(bytes@) {
                None => true,
                Some(m) => exists|e: Seq<(Seq<char>, u64)>|
                    #[trigger] lists_map(e, m) && spec_session_state(e) is None,
            },
        },
{
    let entries = json_state_entries(bytes)?;
    let ghost e = entries_view(entries@);
    assert(lists_map(e, spec_json_state(bytes@)->0));
    session_state(&entries)
}

/// The SHA-256 digest of an input or output payload, as a receipt binds it.
pub fn payload_hash(data: &[u8]) -> (r: [u8; 32])
    ensures
        r@ == spec_sha256(data@),
{
    sha256(data)
}

/// A fresh client nonce from the operating system's random source, or
/// `None` when the source fails.  Nothing is promised of its bytes.
pub fn random_nonce() -> (r: Option<[u8; 32]>) {
    random_bytes32()
}

/// The entries of a state file for a state: each fingerprint as
/// lower-case hexadecimal text, with its sequence number.
pub open spec fn hex_entries(state: Seq<([u8; 32], u64)>) -> Seq<(Seq<char>, u64)> {
    state.map_values(|x: ([u8; 32], u64)| (spec_hex(x.0@), x.1))
}

/// No fingerprint occurs twice in the state.
pub open spec fn fingerprints_distinct(state: Seq<([u8; 32], u64)>) -> bool {
    forall|i: int, j: int| 0 <= i < j < state.len() ==> #[trigger] state[i].0@ != #[trigger] state[j].0@
}

/// Distinct fingerprints have distinct hexadecimal names.
proof fn lemma_hex_names_distinct(state: Seq<([u8; 32], u64)>)
    requires
        fingerprints_distinct(state),
    ensures
        names_distinct(hex_entries(state)),
{
    let e = hex_entries(state);
    assert forall|i: int, j: int| 0 <= i < j < e.len() implies #[trigger] e[i].0 != #[trigger] e[j].0 by {
        lemma_hex_round_trip(state[i].0@);
        lemma_hex_round_trip(state[j].0@);
        assert(state[i].0@ != state[j].0@);
    }
}

/// The text of a state file for a state: a JSON object from hexadecimal
/// fingerprints to sequence numbers.  Where no fingerprint repeats, the
/// JSON reader gives back exactly these entries.
pub fn session_json(state: &Vec<([u8; 32], u64)>) -> (r: Vec<u8>)
    ensures
        r@ == spec_json_state_text(hex_entries(state@)),
        fingerprints_distinct(state@) ==> (spec_json_state(r@) matches Some(m) && lists_map(
            hex_entries(state@),
            m,
        )),
{
    let entries = session_entries(state);
    assert(entries_view(entries@) =~= hex_entries(state@));
    proof {
        if fingerprints_distinct(state@) {
            lemma_hex_names_distinct(state@);
        }
    }
    match json_state_text(&entries) {
        Ok(b) => b,
        Err(_) => {
            proof {
                assert(false);
            }
            Vec::new()
        },
    }
}

/// `x` is one of the entries of `s`.
pub open spec fn holds_entry(s: Seq<(Seq<u8>, u64)>, x: (Seq<u8>, u64)) -> bool {
    exists|k: int| 0 <= k < s.len() && #[trigger] s[k] == x
}

/// The two lists hold the same entries, each entry of one being an entry
/// of the other.
pub open spec fn same_entries(a: Seq<(Seq<u8>, u64)>, b: Seq<(Seq<u8>, u64)>) -> bool {
    &&& forall|i: int| 0 <= i < a.len() ==> holds_entry(b, #[trigger] a[i])
    &&& forall|j: int| 0 <= j < b.len() ==> holds_entry(a, #[trigger] b[j])
}

/// `x` is one of the state's entries, its fingerprint in hexadecimal.
pub open spec fn state_lists(state: Seq<([u8; 32], u64)>, x: (Seq<char>, u64)) -> bool {
    exists|j: int| 0 <= j < state.len() && #[trigger] hex_entries(state)[j] == x
}

/// `x` is one of the entries `e`.
pub open spec fn entries_hold(e: Seq<(Seq<char>, u64)>, x: (Seq<char>, u64)) -> bool {
    exists|i: int| 0 <= i < e.len() && #[trigger] e[i] == x
}

/// A listing of the object that a state's entries list holds the same
/// entries as the state's.
pub(crate) proof fn lemma_listing_matches(
    state: Seq<([u8; 32], u64)>,
    m: Map<Seq<char>, u64>,
    e2: Seq<(Seq<char>, u64)>,
)
    requires
        lists_map(hex_entries(state), m),
        lists_map(e2, m),
    ensures
        forall|i: int| 0 <= i < e2.len() ==> state_lists(state, #[trigger] e2[i]),
        forall|j: int| 0 <= j < state.len() ==> entries_hold(e2, #[trigger] hex_entries(state)[j]),
{
    let h = hex_entries(state);
    assert forall|i: int| 0 <= i < e2.len() implies state_lists(state, #[trigger] e2[i]) by {
        assert(m.contains_key(e2[i].0));
        let j = choose|j: int| 0 <= j < h.len() && #[trigger] h[j].0 == e2[i].0;
        assert(m[h[j].0] == h[j].1);
        assert(m[e2[i].0] == e2[i].1);
        assert(h[j] == e2[i]);
    }
    assert forall|j: int| 0 <= j < state.len() implies entries_hold(e2, #[trigger] hex_entries(state)[j]) by {
        assert(m.contains_key(h[j].0));
        let i = choose|i: int| 0 <= i < e2.len() && #[trigger] e2[i].0 == h[j].0;
        assert(m[e2[i].0] == e2[i].1);
        assert(m[h[j].0] == h[j].1);
        assert(e2[i] == h[j]);
    }
}

/// The text is hexadecimal for exactly 32 bytes.
pub open spec fn decodes_32(t: Seq<char>) -> bool {
    spec_hex_decode(encode_utf8(t)) matches Some(b) && b.len() == 32
}

proof fn lemma_session_all_ok(e: Seq<(Seq<char>, u64)>)
    requires
        forall|i: int| 0 <= i < e.len() ==> #[trigger] decodes_32(e[i].0),
    ensures
        spec_session_state(e) == Some(
            Seq::new(e.len(), |i: int| (spec_hex_decode(encode_utf8(e[i].0))->Some_0, e[i].1)),
        ),
    decreases e.len(),
{
    if e.len() > 0 {
        let r = e.drop_first();
        assert forall|i: int| 0 <= i < r.len() implies #[trigger] decodes_32(r[i].0) by {
            assert(r[i] == e[i + 1]);
        }
        lemma_session_all_ok(r);
        assert(decodes_32(e[0].0));
        assert(Seq::new(e.len(), |i: int| (spec_hex_decode(encode_utf8(e[i].0))->Some_0, e[i].1)) =~= seq![
            (spec_hex_decode(encode_utf8(e[0].0))->Some_0, e[0].1),
        ] + Seq::new(r.len(), |i: int| (spec_hex_decode(encode_utf8(r[i].0))->Some_0, r[i].1)));
    } else {
        assert(Seq::new(e.len(), |i: int| (spec_hex_decode(encode_utf8(e[i].0))->Some_0, e[i].1)) =~= Seq::<
            (Seq<u8>, u64),
        >::empty());
    }
}

proof fn lemma_session_listing(state: Seq<([u8; 32], u64)>, m: Map<Seq<char>, u64>, e2: Seq<(Seq<char>, u64)>)
    requires
        lists_map(hex_entries(state), m),
        lists_map(e2, m),
    ensures
        spec_session_state(e2) matches Some(v) && v.len() == e2.len() && same_entries(v, state_entries_view(state)),
{
    let h = hex_entries(state);
    lemma_listing_matches(state, m, e2);
    assert forall|i: int| 0 <= i < e2.len() implies #[trigger] decodes_32(e2[i].0) by {
        assert(state_lists(state, e2[i]));
        let j = choose|j: int| 0 <= j < state.len() && #[trigger] h[j] == e2[i];
        lemma_hex_round_trip(state[j].0@);
    }
    lemma_session_all_ok(e2);
    let v = Seq::new(e2.len(), |i: int| (spec_hex_decode(encode_utf8(e2[i].0))->Some_0, e2[i].1));
    let sv = state_entries_view(state);
    assert forall|i: int| 0 <= i < v.len() implies holds_entry(sv, #[trigger] v[i]) by {
        assert(state_lists(state, e2[i]));
        let j = choose|j: int| 0 <= j < state.len() && #[trigger] h[j] == e2[i];
        lemma_hex_round_trip(state[j].0@);
        assert(v[i] == sv[j]);
    }
    assert forall|j: int| 0 <= j < sv.len() implies holds_entry(v, #[trigger] sv[j]) by {
        assert(entries_hold(e2, h[j]));
        let i = choose|i: int| 0 <= i < e2.len() && #[trigger] e2[i] == h[j];
        lemma_hex_round_trip(state[j].0@);
        assert(v[i] == sv[j]);
    }
    assert(spec_session_state(e2) == Some(v));
    assert(same_entries(v, sv));
}

/// A saved session reads back: where the JSON reader gives, for the bytes,
/// the object that a state's entries list, every listing of that object
/// decodes to the state's entries.
pub proof fn lemma_session_round_trip(state: Seq<([u8; 32], u64)>, bytes: Seq<u8>)
    requires
        spec_json_state(bytes) matches Some(m) && lists_map(hex_entries(state), m),
    ensures
        forall|e2: Seq<(Seq<char>, u64)>| #[trigger] lists_map(e2, spec_json_state(bytes)->Some_0) ==> (
        spec_session_state(e2) matches Some(v) && v.len() == e2.len() && same_entries(v, state_entries_view(state))),
{
    let m = spec_json_state(bytes)->Some_0;
    assert forall|e2: Seq<(Seq<char>, u64)>| #[trigger] lists_map(e2, m) implies (spec_session_state(e2) matches Some(
        v,
    ) && v.len() == e2.len() && same_entries(v, state_entries_view(state))) by {
        lemma_session_listing(state, m, e2);
    }
}

/// The entries of a session file for a state: hexadecimal fingerprints.
pub fn session_entries(state: &Vec<([u8; 32], u64)>) -> (r: Vec<(String, u64)>)
    ensures
        r@.len() == state@.len(),
        forall|i: int|
            0 <= i < state@.len() ==> #[trigger] r@[i].0@ == spec_hex(state@[i].0@) && r@[i].1
                == state@[i].1,
{
    let mut out: Vec<(String, u64)> = Vec::new();
    let mut i: usize = 0;
    while i < state.len()
        invariant
            i <= state@.len(),
            out@.len() == i,
            forall|j: int|
                0 <= j < i ==> #[trigger] out@[j].0@ == spec_hex(state@[j].0@) && out@[j].1
                    == state@[j].1,
        decreases state@.len() - i,
    {
        out.push((hex_encode(state[i].0.as_slice()), state[i].1));
        i = i + 1;
    }
    out
}

} // verus!
