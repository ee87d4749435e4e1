# svalin_pki

The public-key infrastructure of svalin, written in Verus: the certificate
conventions (type, SPKI-hash names, validity periods), certificate chains,
the central trust store, symmetric and hybrid encryption, password hashing,
key pairs and credentials, and the rules of the MLS groups.

Layout:

- `src/` — the verified library. Calls into `ring`, `x509-parser`, `rcgen`,
  `hpke`, `ed25519-dalek`, `argon2`, `sha2`, `rand`, `zeroize`, `time` and
  `postcard` go through small trusted wrappers whose contracts are stated in
  their doc comments; everything around them is proved.
- `tests/` — tests that run the library against the real outside crates.
- `app/` — the runtime side: async key derivation on tokio, the clock,
  serde forms of the library's values and encryption of serializable objects.
