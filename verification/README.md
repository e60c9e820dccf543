# loongclaw

The verified core of an assistant that talks to model providers, runs tools and answers on
chat channels. Everything under `src/` is checked by Verus: what a function does stands in its
`requires` and `ensures`, over the spec functions beside it.

- `src/text.rs`, `src/json.rs`: texts as sequences of characters, and JSON values.
- `src/channel/`: Telegram. Updates, offsets, splitting and rendering of messages, and the steps
  of sending one.
- `src/conversation/`: the loop that runs a turn, its limits and its supervisor.
- `src/provider/`: answers of providers and the tool calls in them, requests and their retries,
  streams, and the choice of models.
- `src/tools/`: the catalog of tools, their schemas, and which of them a session sees.
- `src/evolution/`, `src/memory/`: sessions that mend the workspace, their rows, and what prompts
  get of the memory.

Properties that span functions are public proof functions named `law_..`.

Calls into `serde_json`, `rand` and parts of `std` go through functions marked
`external_body`; the doc comment of each says what is believed of it. `app/` holds the HTTP,
SQLite, files and clocks around the core.
