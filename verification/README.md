# ligate-cli

Operator and builder CLI for Ligate Chain, as a Verus-verified library
(`src/`) and a thin binary (`app/`).

- `src/` holds the command arguments and every rule the CLI applies:
  parsing and encoding chain hashes and token ids (bech32m, `0x` hex, bare
  hex), the RPC `/v1` normalisation, the keystore file formats and role
  listing, signer and payload-hash flag selection, the schema, attestor-set
  and signature-file checks, the transfer mode and the inclusion-poll
  decisions. Each function carries a contract that Verus proves; the
  properties that span functions (round trips, idempotence, sortedness) are
  proof functions named `law_*`.
- `src/encoding.rs` is the only place that trusts outside code: hex,
  bech32m, SHA-256 and Ed25519 key derivation, each behind a small wrapper
  whose contract restates the crate's behaviour.
- `app/` parses arguments with clap, reads and writes files, talks to the
  node and the faucet, and builds and signs chain transactions through the
  chain's client crates.
