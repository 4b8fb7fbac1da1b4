# blueshoes

The verified core of the Blueshoes edge agent and of its flow-observation
library, written in Verus.

- `src/` is the library. Every function in it carries a contract that Verus
  proves:
  - `flow/`: flow records and their freshness; the platform adapters; the
    projection of evidence into a flow graph, with its laws (one flow per
    identity, unambiguous node ids, shared process nodes, order
    independence); the Windows TCP-table collector's decisions.
  - `edge/`: the planner, the semantic substrate and its hash chain, the
    provenance seal, the secret vault, the cloud clients' requests, the
    watchdog and rollback decisions.
  - `text`, `json_text`, `ip`, `clock`, `digest`, `order`: shared helpers.
- `app/` is the program around the library: command-line handling, files,
  processes, HTTP, serde, and floating-point drift metrics.
- `tests/` runs the library on concrete values.

Calls into outside crates (serde_json, sha2, md5, chrono,
chacha20poly1305, rand, base64, urlencoding) go through small wrappers.
Each wrapper's doc comment says what its contract claims of the outside
code.
