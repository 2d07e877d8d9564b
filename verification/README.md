# cilium_monitor

Renders the network flows that Cilium's Hubble relay streams: a framed, optionally
coloured console view of each flow, a plain-text table of flow counts, and the JSON
records of a small web view. The rendering, filtering and stream decisions are
written in Verus and proved against their contracts; the program around them only
talks to the network.

- `src/` — the verified library
  - `text.rs` — strings: UTF-8 length, decimal numbers, repetition, joining
  - `flow.rs` — the flow values that the library renders
  - `formatter.rs` — the boxed console view of a flow
  - `stats_formatter.rs` — the table of flow counts
  - `flow_filter.rs` — the filter that hides traffic inside the cluster
  - `web.rs` — web records of flows, stream relaying, WebSocket decisions
  - `clock.rs` — date and time text, through chrono
  - `laws.rs` — properties of the rendering that hold for all inputs
  - `flow_laws.rs` — the lines of a flow's box, and what they never hold
  - `flow_sections.rs` — which section headers a flow's box shows, and in what order
- `tests/` — tests on concrete values
- `app/` — the command-line program: gRPC client, WebSocket server, conversions
