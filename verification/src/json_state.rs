//! Sequence-state files: a JSON object from hexadecimal identity
//! fingerprints to the last accepted sequence number.  `serde_json` reads
//! and writes the text; the library decides what the entries mean.

use vstd::prelude::*;
use crate::cli::entries_view;

verus! {

/// What `serde_json::from_slice` makes of `b` read as a JSON object from
/// strings to unsigned 64-bit integers, or `None` where it refuses `b`.
pub uninterp spec fn spec_json_state(b: Seq<u8>) -> Option<Map<Seq<char>, u64>>;

/// The bytes `serde_json::to_vec_pretty` writes for the JSON object made of
/// the entries `e`.
pub uninterp spec fn spec_json_state_text(e: Seq<(Seq<char>, u64)>) -> Seq<u8>;

/// `e` lists the entries of `m`, each name once, in some order.
pub open spec fn lists_map(e: Seq<(Seq<char>, u64)>, m: Map<Seq<char>, u64>) -> bool {
    &&& forall|i: int, j: int| 0 <= i < j < e.len() ==> #[trigger] e[i].0 != #[trigger] e[j].0
    &&& forall|i: int| 0 <= i < e.len() ==> m.contains_key(#[trigger] e[i].0) && m[e[i].0] == e[i].1
    &&& forall|k: Seq<char>| #[trigger] m.contains_key(k) ==> exists|i: int| 0 <= i < e.len() && #[trigger] e[i].0 == k
}

/// Reads a JSON object of unsigned integers with `serde_json::from_slice`
/// into a `HashMap<String, u64>` and hands out its entries.  The claim: it
/// succeeds exactly where the named reading does, and then the entries
/// list that map, each key once (a `HashMap` holds each key once; the
/// order in which it is walked is left open).  On failure the message is
/// `serde_json`'s, of which nothing is stated.
#[verifier::external_body]
pub(crate) fn json_state_entries(bytes: &[u8]) -> (r: Result<Vec<(String, u64)>, String>)
    ensures
        r is Ok <==> spec_json_state(bytes@) is Some,
        r matches Ok(v) ==> lists_map(entries_view(v@), spec_json_state(bytes@)->0),
{
    match serde_json::from_slice::<std::collections::HashMap<String, u64>>(bytes) {
        Ok(map) => Ok(map.into_iter().collect()),
        Err(e) => Err(e.to_string()),
    }
}

/// No name occurs twice among the entries.
pub open spec fn names_distinct(e: Seq<(Seq<char>, u64)>) -> bool {
    forall|i: int, j: int| 0 <= i < j < e.len() ==> #[trigger] e[i].0 != #[trigger] e[j].0
}

/// Writes the entries as a JSON object with `serde_json::to_vec_pretty`,
/// through `serde_json`'s own object type.  The claims: it succeeds (an
/// object with string keys and integer values, written into a `Vec`,
/// leaves `serde_json` nothing to refuse); the bytes are the named text of
/// the entries; and, where no name repeats, `serde_json::from_slice` reads
/// them back as the object whose entries these are (`serde_json` escapes
/// and unescapes strings and writes unsigned integers as it reads them).
#[verifier::external_body]
pub(crate) fn json_state_text(entries: &Vec<(String, u64)>) -> (r: Result<Vec<u8>, String>)
    ensures
        r is Ok,
        r matches Ok(b) ==> b@ == spec_json_state_text(entries_view(entries@)),
        r matches Ok(b) ==> (names_distinct(entries_view(entries@)) ==> (spec_json_state(b@) matches Some(
            m,
        ) && lists_map(entries_view(entries@), m))),
{
    let object: serde_json::Map<String, serde_json::Value> =
        entries.iter().map(|(k, v)| (k.clone(), serde_json::Value::from(*v))).collect();
    serde_json::to_vec_pretty(&object).map_err(|e| e.to_string())
}

} // verus!
