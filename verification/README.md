# dbward-app

The application layer of dbward, a gateway that lets people run statements on
databases only after review, approval and under audit. The rules of the use
cases are written in Verus and proved against their contracts.

## Layout

- `src/` is the verified library.
  - `domain`, `error`, `time`: requests, workflows, policies, events, errors and
    instants.
  - `text`, `json`, `digest`, `snapshot`: helpers on texts, JSON documents,
    SHA-256 digests and schema snapshots.
  - `services`: audit records and webhook notices, and the texts in which plans,
    risks and tables are shown.
  - `use_cases`: one module for each use case.
  - `config_diagnostics`: the checks of a server configuration.
- `app/` runs the use cases against storage, clocks, keys and notification.
- `tests/` holds the tests.

## How a use case is written

A use case is a chain of stages. Each stage is a struct that says in its doc
comment what is due next: a lookup, an authorization, the current time. A method
takes the stage and the reply, and returns the next stage, the answer or an
error. Its contract says which, for every reply. Nothing in the library reads a
clock or a store; a driver in `app/` does, and hands the reply back.

What holds across functions is stated in public proof functions next to them.
