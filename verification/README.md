# agent_core

The core of a personal agent, written in Verus: what the agent decides and
computes stands in `src/` with its contract and is proved there.

- `config`, `audit`, `error`: the configuration file, the audit log, failures.
- `events`, `events_json`: the events of a turn, their wire form, their replay.
- `llm`: requests and answers of OpenAI-compatible providers, server-sent
  events, recordings and their replay.
- `context`: the window of a conversation that fits the prompt budget, and the
  summary of the rest.
- `agent`: fencing of untrusted content, the tool-calling loop, tool calls with
  consent, workers, the evening reflection.
- `session`: a conversation with at most one turn in progress, consent,
  threads.
- `conversations`, `memory`: stored conversations and notes.
- `search`: web search services and the text of fetched pages.
- `sandbox`: the command line, limits, environments and files of the sandbox
  for Python scripts.
- `json`, `fields`, `text`, `time`, `order`, `paths`: what the rest is built on.

The library does no input or output. Functions take what was read (a
`FileRead`, a status and a body, the local time) and say what to write, send or
run. `app/` is the runtime around it: files, the clock, HTTP, processes and
tasks.

Properties that span several functions are public proof functions, in the
module they belong to or in its `laws` module.
