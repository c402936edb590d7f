# home_automation_rs

A home automation server for Zigbee2MQTT networks: it records sensor
readings, tracks switch states, runs automation rules, serves a small HTTP
API with a WebSocket event feed, and keeps its SQLite history small.

## Layout

- `src/` is the library, written in Verus. Every function there carries a
  contract that Verus proves: request routing and query parsing, the rule
  model and its validation, MQTT message interpretation, the automation
  decisions (conditions, debounce, planned actions), the response cache, log
  file reading, retention planning, SVG upload checks, the WebSocket client
  registry and the voice persona state machine. Calls into outside crates
  (chrono, uuid, getrandom, flate2, serde_json, tokio channels) go through small
  wrappers whose contracts are stated next to them.
- `app/` is the program around the library: `main`, the SQLite queries, the
  hyper server, the rumqttc event loop, WebSocket I/O, JSON encoding, and the
  floating-point sensor arithmetic.
- `tests/` runs the library on concrete inputs.
