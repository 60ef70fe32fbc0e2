# chat_server

A single-room TCP chat service, its load tester and a terminal monitor,
with the decision logic written and proved in Verus.

- `src/` — the verified library
  - `text.rs`: whitespace trimming, line-ending stripping, substring search,
    decimal rendering and parsing (with a proof that parsing inverts
    rendering)
  - `clock.rs`: `HH:MM:SS` time stamps (`now`, `clock_text`)
  - `room.rs`: the room registry, the per-connection session state machine
    and the writer's delivery decision (no echo to the sender)
  - `monitor.rs`: the monitor's log, input line, scrolling and screen texts
  - `stress.rs`: load-test profiles, argument handling, connection retries
    and the scripted client
- `app/` — sockets, tasks, timers, terminal and console output; run as
  `chat server`, `chat stress_test [clients] [messages] [addr]`,
  `chat stress_test_1000 [...]` or `chat monitor [addr] [nick]`
- `tests/` — executable tests of the library
