# factory_edge_agent

The edge agent runs a machine driver on the box wired to the machine and talks
to the factory gateway over OPC-UA: it subscribes to the machine's
`PendingJobId`, reads the pushed job's cut-list, runs the driver on it and calls
`ReportComplete` once the driver succeeded.

- `src/` is the verified library:
  - `config.rs`: the parsed configuration, the default namespace URI and the
    driver's own table;
  - `registry.rs`: the driver registry (kinds to constructors), listed in
    ascending order. It is a list of (kind, constructor) pairs in which no
    kind occurs twice, in place of a `HashMap` keyed by `&str`: vstd's
    specification of `HashMap` describes lookups only for key types that
    `obeys_key_model` holds of, which vstd establishes for integers and
    `bool` but not for `&str`, and the
    constructors are generic because Verus does not take function pointer
    types;
  - `order.rs`: the order of driver kinds;
  - `agent.rs`: the gateway endpoint, the machine's gateway nodes, the
    namespace index and which pushed job ids are accepted;
  - `job_loop.rs`: the job loop as a state machine from phase and event to
    next phase and action.
- `app/` is the program around it: reading the configuration file, the OPC-UA
  session, the driver runs, and the loop that feeds events to the library.
- `tests/` runs the library on concrete values.
