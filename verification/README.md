# codetalker-core

The 1942 Navajo code-talker stack was three layers: a homophonic
substitution, a pre-shared codebook, and a rare unwritten language. This crate
rebuilds that stack on modern primitives and makes each layer independently
switchable, so a reader can find out which one was load-bearing.

The library is written in Verus. Every function in `src/` carries a contract,
and the claims the demo makes in prose are proved there rather than asserted:
what an adversary recovers under each configuration, that every guided
experiment, preset and caption declares the outcome its configuration
produces, that each challenge's own solution meets its requirements, and that
the transport framing round-trips and announces the exact length. A run can
still fail where the original fails: on a message too long for the frame's
length prefix, or on a KEM that refuses; neither backend of this build
refuses.

| 1942 | here |
|---|---|
| codebook | `kem` + `kdf` + `handshake` |
| homophonic substitution | `aead` |
| rare language | `transport` |
| (absent in 1942) | `identity`: peer authentication |
| (absent in 1942) | `ratchet`: forward secrecy |

The rest of `src/`:

- `session`: channels, the ablation switches, what a passive adversary or a
  machine in the middle recovers, and `exchange`, one full transmission.
- `threat`: the adversaries A1 to A5 and the metadata that always leaks.
- `lab`: the guided experiments, scenarios and challenges, with their declared
  outcomes proved.
- `explain`: the captions, glossary, hexdump legend and handshake drawing.
- `wire`: a frame split into the labelled runs the hexdump colours.
- `transcript`, `bytes`, `error`: the pieces the others share.

Calls into the cryptographic crates (`aes-gcm`, `chacha20poly1305`,
`ed25519-dalek`, `x25519-dalek`, `hkdf`, `sha2`, `rand_core`) stand behind a
few small wrappers, each documenting what its contract assumes of the crate.

`app/` is the browser surface: `wasm-bindgen` exports that convert the
library's values to JavaScript objects and hex strings and decide nothing.
`tests/` holds the teaching assertions, published test vectors and swept
inputs for the parsers.

This build carries the classical backend (DHKEM(X25519) and Ed25519). The
post-quantum names (X-Wing, ML-DSA-65) are reported honestly as unavailable
rather than faked.
