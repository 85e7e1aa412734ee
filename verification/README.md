# spdm_x509

X.509 certificate handling for SPDM (DMTF DSP0274) devices, written in Verus.

The library reads and writes DER certificates, checks certificates one by one
and as chains, and applies the SPDM rules on negotiated algorithms, extended
key usages, hardware identity, basic constraints and certificate chain framing.
Every function states what it returns in its contract, and Verus proves it.

Layout of `src/`:

- `der.rs`, `oid.rs`, `bytes.rs`, `text.rs`, `unicode.rs`: the DER grammar
  (tags, lengths, integers, bit strings, identifiers), byte and text helpers.
- `certificate.rs`, `extensions.rs`, `name.rs`, `name_strings.rs`,
  `directory_string.rs`, `general_name.rs`: certificates, their extensions,
  distinguished names and alternative names.
- `encoding_laws.rs`: what is written reads back (certificates, names,
  alternative names).
- `reading_laws.rs`: what is read is well formed and writes back no longer
  than it was read, then reads back the same.
- `algorithms.rs`, `crypto.rs`, `crypto_backend.rs`: signature algorithms and
  the `ring` backend that verifies signatures and computes digests.
- `validator.rs`: validity periods, critical extensions, signatures and chains.
- `spdm/`: SPDM algorithm negotiation checks, the SPDM certificate validator
  and SPDM certificate chains.

Calls into `der`, `const-oid`, `spki`, `pem-rfc7468`, `ring` and std that are
not proved are small functions marked `#[verifier::external_body]`, each with
a doc comment saying what its contract claims.
