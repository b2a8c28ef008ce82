# mycelium

A typed message bus for services in one process, across processes on one
machine (Unix sockets, shared memory rings) and across machines (TCP), with
a code generator that turns message contracts into Rust and Python bindings.

## Layout

- `src/` — the verified library (Verus). Public functions carry contracts
  over mathematical models (the random identifier constructors promise
  nothing of the value they draw); laws that relate several functions are
  public proof functions named `lemma_*`.
  - protocol: `wire`, `codec`, `message`, `envelope`, `fixed_vec`, `routing`,
    `schema_compat`, `zerocopy`, `raw`, `stream_codec`, `shm_ring`
  - topology and routing: `config`, `deployment`, `bus`, `topics`, `names`,
    `route_names`
  - runtime state: `buffer_pool`, `backpressure`, `bounded`, `ordered`, `qos`,
    `service`, `service_metrics`, `service_runtime`, `supervisor`, `shared`,
    `endpoint_stats`, `local`, `delivery`, `handler`, `service_macro`
  - code generation: `codegen`
  - text helpers: `text`, `strutil`, `pow2`, `error`, `actor_errors`,
    `pool_stats`, `bridge_config`
- `app/` — the program around the library: the command line generator, file
  and socket I/O, async runtime plumbing, memory-mapped rings, worker
  processes, C entry points, token-level macro expansion and the few
  computations done in floating point.
- `tests/` — tests of the library through its public interface.
