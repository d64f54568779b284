# cortex_ai

A data-processing flow library whose decisions are verified with Verus.

A flow reads items from a source, passes each through processors and
conditional branches (which may nest), and hands the result to a final sink; the sink reports
back to the source what became of each item. A pipeline is the simpler form
without sinks or feedback.

## Layout

- `src/` — the verified library.
  - `stage.rs`, `composer.rs` — the shape of a flow and its builders, with the
    rules of composition (source first, sink last and only once, none inside
    a branch).
  - `engine.rs` — moving an item's cursor to the next stage that needs a call.
  - `run.rs` — `FlowRun`, the decision machine of a running flow: it takes
    what happened (an item, a component's answer, the shutdown signal) and
    says what to do next and what feedback to send.
  - `semantics.rs`, `laws.rs` — what running stages means, stated directly,
    and the proofs that `FlowRun` does exactly that, item by item and over a
    whole stream.
  - `pipeline.rs` — pipelines, their run machine, and the proof that they run
    their stages as flows do.
  - `processors.rs`, `fields.rs`, `sinks.rs`, `sources.rs`, `error.rs` —
    ready-made components, errors, settings, and the Kafka source's decisions.
- `app/` — the asynchronous side: the component traits, flows and pipelines
  that hold real components and run them on tokio, the Kafka source, and a
  click-stream sample.
- `tests/` — scenarios driven through the library's run machines.
