# gastank

The verified core of a command-line client for the GasTank contract, which holds
deposits as notes in a Merkle tree and pays for calls out of them.

- `src/` is the library. Its functions carry contracts that Verus proves, but for
  the few that call into other crates (see below).
  - `bytes`, `text`, `hex_text`, `u256`: byte strings, numerals, hexadecimal
    text and 256-bit numbers.
  - `hash`, `merkle`: Keccak-256 and inclusion proofs.
  - `calldata`, `convert`, `contract`: Solidity values, the calls of the contract
    and the replies to its views.
  - `keys`, `frame`: secret keys, frame transactions and their signatures.
  - `spend`, `preparation`: the checks on a spend, and the conversation with the
    chain that gathers what a spend needs.
  - `plan`, `envelope_plan`: the transactions behind the commands, for nodes that
    take recent roots in a verifier frame and for nodes that take them in the
    envelope.
  - `report`, `trace`: what the commands print.
- `tests/` runs the library on concrete values.
- `app/` is the program: arguments, the connection to the node, and printing. It
  serves nodes that take recent roots in a verifier frame; nodes of the other
  kind are built with another `FrameTransaction`, and a program can link only one.

Calls into other crates (hashing, signing, number parsing, transaction encoding)
stand behind small functions marked `external_body`. Their comments say what is
taken on trust of the function that they call.

`frame::sign` signs any transaction over a given hash. The library can compute
the hash and the encoding of those transactions that the envelope of
`ethrex-common` holds (`frame::envelope_sig_hash`, `frame::envelope_encoding`).
