# veriai

Verifiable AI inference receipts, with their checks proved by Verus.

An enclave signs a receipt (a COSE_Sign1 message carrying CBOR claims: the
model's Merkle root, the hashes of input and output, the client's nonce, a
sequence number and an AWS Nitro attestation document binding the enclave's
Ed25519 key).  A verifier checks the receipt's signature, the attestation
document's ES384 signature and certificate chain, PCR0, the key and REPORTDATA
bindings, the nonce, the hashes and the clock, and (when stateful) that
sequence numbers increase for each enclave identity.

## Layout

- `src/` — the verified library.
  - `cbor`, `claims`, `doc`, `cose`: the byte formats, with decoders and
    encoders proved against their specifications and round-trip lemmas.
  - `hashing`: the model Merkle root over 4 MiB chunks, of content in
    memory or taken in one chunk at a time.
  - `x509`, `pem`, `attestation`: certificates, trusted-root bundles and
    attestation documents (mock and Nitro providers).
  - `verify`, `receipt`, `sdk`, `wasm`: receipt verification (service, SDK
    and browser flavours) and generation, with the laws that tie them:
    a generated receipt is accepted, an accepted receipt passed every
    check, a replay is refused, sequence numbers increase.
  - `runtime`, `service`, `cli`: the logic of the inference runtimes, the
    HTTP service (request decoding, challenges, and the steps the verify
    handler takes after a verdict) and the command-line tool.
  - `json_state`: the sequence-state files, read and written through
    `serde_json`; a saved state reads back as the same entries.
  - `crypto`: the calls into `sha2`, `ed25519-dalek`, `p384`, `base64ct`,
    `hex` and `rand_core`, with the contracts they are trusted to meet.
- `app/` — the `veriai` program: command line, HTTP service, file and
  process I/O, and the browser binding.
- `tests/` — the test suite.
