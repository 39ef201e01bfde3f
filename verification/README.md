# v_kernelx

The kernel of the Vector Network prototype as a verified library: vector states and
their lifecycle (origin creation, certification, transfer, drain, projection,
reconstruction), the record ledger, canonical events with their hashes and signatures,
DAG validation and ordering, deterministic replay, regions, an opcode interpreter and a
request session. Every function in `src/` carries a contract that Verus proves.

A transfer moves an amount between two vectors: the sender loses exactly what the receiver
gains. A transfer from a vector to itself reports both sides and leaves the stored vector
as it was.

Layout:

- `src/` — the library, written in Verus.
  - `state`, `event`, `record`, `region`: the data model and each type's view.
  - `certification`, `drain`, `projection`, `reconstruction`, `transfer`, `origin`: the
    arithmetic of each operation.
  - `engine`, `storage`, `query`, `checked`, `sdk`, `developer`: the engine over an
    in-memory store, its operations and their overflow-refusing forms.
  - `serialization`, `hash`, `stateroot`, `statejson`, `json`, `encoding`, `crypto`,
    `signature`, `wallet`: canonical bytes, digests, JSON text, keys and signatures.
  - `dag`, `replay`, `snapshot`, `validation`: event checks, ordering and replay.
  - `interpreter`: the script language; `session`: signed requests, event checks and
    replay summaries as the C interface needs them.
  - `acceptance`, `genesis`: when an operation's event and a region's genesis event are
    accepted, so that the operations can promise success; the region registry's shape.
  - `rootorder`: state-root order sorts the states, so the root does not depend on the
    order they are given in.
  - `text`, `strmap`, `checks`, `ratio`, `error`: text, ordered maps and small helpers.
- `tests/` — the scenario tests and tests of the library's rules.
- `app/` — the C interface, the Python module and serializable copies of the types.
