# rustcost

The core of a Kubernetes cost monitor, written in Verus: what it stores about
the cluster, how it reads and writes its files, and the runtime state it keeps,
each with a contract that Verus proves.

## Layout

- `src/` — the verified library.
  - `text.rs`, `time.rs`: text helpers and instants; the calls into `chrono`
    and `std` sit behind small trusted wrappers with stated contracts.
  - `codes.rs`: the alert and LLM-provider codes.
  - `info/`: stored information about pods, nodes, containers, deployments and
    namespaces, and how an update merges into it.
  - `metrics/`: metric rows (`time|v1|v2|...`), the yearly and monthly file
    keys, reading a time window, column filters, paging, aggregation and expiry.
  - `settings/`: the `KEY:value` settings files for alerts and the LLM client,
    their readers, writers and updates, with the write-then-read laws.
  - `state/`: the runtime alert state with its rate limit, and the cluster
    snapshot with its indexes.
  - `client/`: Kubernetes quantities, and the mapping of pods and nodes (held
    as plain values) to stored information.
- `tests/` — tests of the library on concrete values.
- `app/` — the unverified rim: files, the Kubernetes API, async state behind
  locks, and the floating-point cost formulas.
