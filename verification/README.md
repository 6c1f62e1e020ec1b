# dweb_cloud

A storage cloud kernel for applications: key identities derived from a
secret input, challenges signed with Ed25519 and exchanged for tokens bound to
an account and an application, and WebDAV access to per-application spaces.

- `src/` is the verified library (Verus). `identity` derives identities and
  signs and verifies challenges; `store` keeps challenges, tokens and
  application spaces as values, with `store_laws` stating what holds across
  its operations; `api` and `dav` hold the decisions of the HTTP and WebDAV
  front; `crypto` and `hexcodec` are the calls into the digest, signature,
  mnemonic, randomness and hexadecimal crates, each with its contract.
- `app/` is the program around it: the axum server, the reqwest client, and
  reading and writing the data directory.
- `tests/` exercises the library on concrete values.
