# mealie_cli

A command-line client for the [Mealie](https://www.mealie.io/) recipe and meal-plan service,
with its logic written in Verus and proved against its contracts.

## Layout

- `src/` — the verified library.
  - `session.rs`: every command that talks to the API as a state machine. `start` gives a
    command's first step, `advance` the next one from the reply to the last request; each step
    either sends one request or finishes with the command's result.
  - `safety.rs`: what that machine guarantees for `plan set` and recipe lookups (replacement
    only on the same date and meal, deletion only after creation, rollback, exact name matches).
  - `client.rs`: reading API responses (recipes, plan entries, errors) from JSON values.
  - `date_input.rs`: the date language (`YYYY-MM-DD`, `today`, `+2d`, `-1w`, ...) and plan ranges.
  - `config.rs`, `status.rs`: configuration from the environment and the `status` report.
  - `output.rs`: human output (tables, details, confirmations) and quiet output.
  - `error.rs`: stable error codes, exit statuses, and the human and JSON error texts.
  - `json.rs`, `text.rs`: JSON values as plain data, and text helpers with their specifications.
  - `bindings.rs`: the calls into chrono, reqwest and serde_json, each behind a contract.
- `app/` — the `mealie` program: argument parsing (clap), HTTP (reqwest), JSON parsing and
  JSON output (serde_json), and the loop that runs a session.
- `tests/` — tests of the library, including whole command sessions against scripted replies.
