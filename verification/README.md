# spa-device

Single packet authorization and port cloaking, with its logic proved in
[Verus](https://github.com/verus-lang/verus).

A protected port answers nobody. A client that wants to connect first sends one
signed, encrypted datagram, the *knock*. Its gate decrypts and judges the knock,
and opens the requested ports for that source, for a fraction of a second; a
connection that begins in that time lives on.

## Layout

`src/` is the verified library.

| Module | What it holds |
|---|---|
| `wire` | the authorization inside a knock, byte by byte |
| `envelope`, `identity` | sealing and opening knocks, keys and signatures |
| `gatekeeper` | the decision on a knock, over injected clock, crypto, trust and replay state |
| `adapters` | the trust store, the replay cache, the queue of openings, the clock |
| `grant`, `filter` | what the packet filter is told, and its verdict on every packet |
| `config`, `bundle`, `watch` | configuration, signed policy bundles, hot reload |
| `client`, `provision`, `catalog` | the knock client, generated key files, the service catalog |
| `control`, `nft`, `audit` | messages to the control plane, the firewall floor, the audit log |
| `mesh`, `resolver` | the agent's datapath and its block in the hosts file |
| `protocol` | laws that span modules |
| `primitives`, `hexcode`, `text`, `bytes`, `addr` | what the rest is built on |

Laws of the library are public proof functions whose names begin with `law_`.

Cryptography comes from aws-lc-rs and hexadecimal from the hex crate. The
functions that call them, and the few that call into the standard library, are
marked `#[verifier::external_body]`; the comment above each says what is relied
on.

`app/` is ordinary Rust: sockets, files, processes, kernel maps, HTTPS and the
TUN device. `tests/` runs the library with the real crates.
