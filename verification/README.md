# openclaw_anim

The verified core of a desktop companion that animates a character from the
tool-call events of an OpenClaw gateway.

- `src/` is the library, verified with Verus:
  - `action` — the actions, their identifiers and priorities;
  - `state_machine` — the anti-flicker state machine, with its abstract
    `step` and the nanosecond clock model; `machine_laws` — its laws;
  - `sse` — the framing of the event stream into `data:` payloads, the
    client configuration and the reconnect backoff;
  - `config` — configuration defaults, source selection and derived values;
  - `token` — the choice of the gateway token from the environment;
  - `pairs`, `text`, `clock` — string-pair lookup, text helpers, the clock.
- `app/` is the Tauri application around it: window, file and network I/O,
  serde parsing.
- `tests/` exercises the library on concrete values.
