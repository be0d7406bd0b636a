# bm_stack

A Bristlemouth node, verified with Verus: the state machine that decides what a
node owes the network for each frame and each timer, the PHY and storage
interfaces it runs on, and the models and verdicts that hold a node against the
C reference.

## Layout

- `src/` is the verified library. It does no I/O and never panics.
  - `node` decides. A frame or a timer starts an exchange; the exchange asks
    one question at a time, takes the answer, and ends with what is owed: a
    relay, a reply, a re-flood.
  - `frame`, `message`, `links`, `bytes` are what it decides over.
  - `port` holds the interfaces a platform provides: PHY, clock, identity,
    configuration storage. `config` loads and saves partitions through them,
    `adin2111` is the switch's transfer and receive rules, `mock` a scripted
    PHY.
  - `fuzz` draws comparison inputs from a fuzzer's bytes.
  - `diff` compares a node with the C reference: what each script means, what
    both sides are expected to do, and whether what was seen agrees.
  - `laws` states what holds of the node as a whole.
- `tests/` runs the library on concrete frames, scripts and seeds.
- `app/` connects it to the outside: `bm_wire`'s codecs and tables answer a
  node's questions, `bm_wire_sys` is the C reference, embassy runs the loop.

## What is trusted

The wrappers in `src/fuzz.rs` state what `arbitrary::Unstructured` hands out
for given bytes. Everything else in `src/` is proved.
