# node_handlers

The decision core of a node's network-event handlers, verified with Verus.

- `src/` — the library. Its functions carry `requires`/`ensures` contracts
  that Verus proves (the clock reading `clock::now_ms` promises nothing
  beyond its type); the laws of the library (what a read gives back of a
  write, what every step keeps) are public proof functions next to the code
  they speak of. Calls into `sha2`, `ed25519-dalek`, `hex` and `borsh` go
  through trusted wrappers in `src/crypto.rs`, and the system clock through
  `src/clock.rs`; there are no others.
- `tests/` — ordinary Rust tests run against the compiled library.
- `app/` — the surroundings: drivers that perform the lookups, sends,
  waits and store writes the library's state machines and decisions ask
  for, and the shared tables the handlers reach from several tasks.

Module map: `ephemeral` (presence: envelope authentication, freshness, the
awareness store, inbound gates, outbound publishing and heartbeats),
`readiness` (beacons and their debounce), `tee` (fail-over order of TEE
triggers), `topics` (gossip topic parsing), `delta_auth` and `delta_flow`
(state-delta authorization, the governance-pending and absorb drains, and the
decisions of each delta path), `apply_flow` (the apply step as a state
machine), `replay_flow` (the replay of a delta buffered during a snapshot
sync, as a state machine), `parent_fetch` (the fetch of missing parents and
their add order, as a state machine), `key_share` (the mutually authenticated
sender-key exchange), `namespace` (namespace governance routing), `invites`
(the specialized-node invite table), `blob_access` (who may fetch a blob, and
prefetching), `heartbeat` (root-hash divergence streaks), plus the supporting
`bytes`, `keyed`, `text` (decimal rendering), `crypto` and `clock`.
