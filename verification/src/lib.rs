//! Verifiable AI inference receipts: hashing, CBOR/COSE framing, attestation
//! checks and receipt verification, with their contracts proved by Verus.

pub mod cbor;
pub mod text;
pub mod types;
pub mod claims;
pub mod doc;
pub mod crypto;
pub mod hashing;
pub mod cose;
pub mod error;
pub mod attestation;
pub mod verify;
pub mod receipt;
pub mod x509;
pub mod pem;
pub mod runtime;
pub mod service;
pub mod sdk;
pub mod wasm;
pub mod cli;
pub mod json_state;
