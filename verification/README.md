# runner-controller

A controller for a pool of Loom workers in NixOS containers. Workers advertise their software and
their prices per second over Nostr, accept jobs that are paid for with Cashu tokens, run them in warm
containers, and publish the results with a bill and the change.

## Layout

- `src/` is the library, written in Verus: what the controller decides and computes, with contracts
  and proofs. Work that touches the world is described by stages and commands; its outcome is handed
  back as plain values.
- `app/` is the program around it. It does what the stages ask for: it talks to relays, runs the
  `cdk-cli` wallet and `nixos-container`, reads and writes files and the database, reads JSON into the
  library's types, and serves the status page. `runner-controller post-job` publishes a job request.
- `tests/` runs the library on concrete values, with the real outside crates.

## Trust

The proofs rest on the contracts of a few small wrappers and specifications: in `event.rs` on the
`nostr` crate (keys, encryption, signing and verifying events, relay URLs, profiles), in `json.rs` on
`serde_json` (string literals, reading and writing a value), and in `clock.rs`, `container.rs` and
`text.rs` on the standard library (durations, the clock, hashing, `String::push`). Each says in its
comment what is believed of the call.
