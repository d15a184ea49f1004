# zephyrchain

The verified core of a ZephyrChain node, written in Verus.

- `src/` is the library. Every function in it carries a `requires`/`ensures`
  contract that Verus proves; the few calls into other crates (`chrono` for the
  clock, `zstd` for compression, and `std` for UTF-8 checks and durations) sit
  behind small trusted wrappers whose contracts are documented where they stand.
- `tests/` runs the library on concrete values.
- `app/` is the node program around the library: configuration files, timing
  reports, channels and threads, and the floating-point reputation and mining
  parameters.

Modules of the library:

- `chain`: transactions and blocks.
- `mining`: the bounded transaction pool and block templates with difficulty
  adjustment.
- `marketplace`: tasks, bids, their validation rules and error codes.
- `network::protocol`: protocol messages, their priority queues with credit
  flow control, and their wire encoding (compressed with zstd).
- `network::server`: what the server does with each message a peer sends.
- `network::quantum_resistant`: reading a length-prefixed signed message, and
  the steps of establishing a connection's keys (quantum exchange first,
  classical fallback).
- `network::handler`, `network::sync`: state synchronisation messages and what
  the handler does with them.
- `network::peer_discovery`, `network::peer_admission`: known, active and
  connected peers.
- `network::shard_network`, `network::shard_message`, `network::shard_codec`:
  routing between shards, the answers to shard messages and their wire format.
- `network::config`, `network::tls_config`: network settings and their
  builders; ALPN protocols and cipher suites.
- `hdcmodels`: the profiler and the smart-contract generation helpers.
