# trueseal-noise

`Noise_XX_25519_ChaChaPoly_BLAKE2s` and `Noise_NK_25519_ChaChaPoly_BLAKE2s`
handshakes with a framed, encrypted transport (2-byte big-endian length
prefix, at most 65,519 plaintext bytes per message), written in Verus.

The protocol logic is verified: every message step of both handshake
patterns, the SymmetricState (MixHash, MixKey, EncryptAndHash,
DecryptAndHash, Split), HMAC-BLAKE2s and the Noise HKDF, the CipherState and
its nonce encoding, RFC 7748 clamping, framing, the session drivers and the
binding-facing error classification. Contracts are stated over spec models
(`HsModel`, `SymModel`, `CipherModel`); the primitives themselves
(BLAKE2s, X25519, ChaCha20-Poly1305, the random source) are called through a
handful of trusted wrappers whose results are named, not re-implemented.

## Layout

- `src/` — the verified library
  - `cipher.rs`, `symmetric.rs`, `keypair.rs` — Noise cryptographic state
  - `handshake.rs` — XX and NK message steps and the handshake laws. Each
    write step states that a peer in the matching state reads its message
    (`xx_msg0_delivers` … `nk_msg1_delivers`): the peer gets the payload,
    the same symmetric state, the writer's keys, and at the end the same
    ciphers and hash. These rest on the per-call facts of the `dh` and
    `chacha_seal` wrappers, so an honest exchange of handshake steps is
    proved outright. The model-level agreement lemmas state the same over
    all inputs, under the premises `dh_agrees` and `aead_is_correct`. NK
    keeps the initiator anonymous (proved outright).
  - `framing.rs`, `session.rs` — length-prefix framing and the post-handshake
    session (send / receive / close)
  - `session_xx.rs`, `session_nk.rs` — the dial / accept drivers
  - `ffi.rs` — the binding-facing API: `NoiseError`, `KeypairRecord`, the
    `NoiseTransport` callback trait, `SessionXx`, `SessionNk`
  - `bytes.rs`, `text.rs` — byte and text helpers
- `tests/` — tests, including byte-for-byte conformance against `snow`
- `app/` — UniFFI bindings for Swift and Kotlin and an adapter that runs
  sessions over any blocking `Read + Write` stream
