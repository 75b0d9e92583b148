# bsc_parlia

The rules of a BNB Smart Chain node, verified with Verus: Parlia consensus with fast finality, the
pool of votes and its watch over malicious ones, snapshots of the validator set, the wire format of
block ranges, building and sealing blocks, and the engine's view of payloads.

- `src/` is the library. Every function states what it returns or changes, and Verus proves it.
  The laws that hold across functions are public proof functions whose names begin with `law_`.
- `tests/` runs the library on concrete values, with the outside crates linked.
- `app/` is ordinary Rust around the library: the command line, the peers, the timers, the remote
  control and the metrics. The execution client is a part of its own that registers itself there.

What the library takes from outside crates without proof stands in functions marked
`#[verifier::external_body]`; the comment above each says what is claimed of the outside function.
What is claimed holds in a process that gets the memory it asks for.
