# survon

The logic of the Survon hub runtime, verified with Verus: the serial
protocol (SSP) and its conversion to and from bus messages, the routing of
outbound messages to field devices, the BLE command scheduler with its
command windows and priority queues, the cutting of notification streams
into messages, device registration and module configuration, the knowledge
assistant's search, ranking and answers, the message window, the jukebox
browser, and the view models of the terminal cards.

## Layout

- `src/` — the verified library. Each module states its contracts over
  mathematical models (`Seq`, `Map`, `Json`, ...); the laws that relate
  several operations are public proof functions (`lemma_*`).
- `app/` — ordinary Rust around the library: log files, SQLite storage,
  the tokio message bus, serial ports, HTTP requests, drawing with ratatui, serde forms of the
  messages, and the floating-point readings of the gauge, chart and cover
  picture.
- `tests/` — tests of the library on concrete values.

Calls into outside crates (`serde_json`, `serde_yaml`, `md-5`, `chrono`,
`rand`) and a few `std` functions stand behind small trusted wrappers whose
doc comments say what is assumed of them.
