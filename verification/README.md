# homeassistant-tui

A keyboard-driven terminal UI for [Home Assistant](https://www.home-assistant.io/) whose logic is
verified with [Verus](https://github.com/verus-lang/verus).

It talks to Home Assistant over its WebSocket API, so states update live, and it never blocks on the
network: failed calls surface as toasts and dropped connections reconnect automatically.

## Layout

`src/` is the verified library. It does no input or output and no floating point: time, decoded
messages and the results of stepping a numeric control come in as plain values.

- `ha/types.rs`, `ha/actions.rs`: entities, and what a key means on one
- `ha/client.rs`, `ha/session.rs`, `ha/reconnect.rs`: requests, one connection, and what happens
  between connections, as functions from state and event to the next state and what is told
- `ha/laws.rs`: what holds of a whole session, whatever happens: every command gets exactly one
  outcome, no change of state is lost or put out of order
- `store.rs`, `search.rs`: the mirror of Home Assistant's state, its groups and lists; fuzzy ranking
- `app/`: the application state, how keys and events change it, and what holds of that
- `ui/`: what is shown, as styled lines and tables
- `config.rs`, `dump.rs`: where URL and token come from; the summary on standard output
- `json.rs`, `strmap.rs`, `text.rs`, `time.rs`, `sort.rs`: what the rest is built on

`app/` is the program around it: arguments, files, the socket, drawing with ratatui, the local time
zone and floating point.

What the library believes of other crates without proof stands beside each call, in `json.rs`
(serde_json), `time.rs` (chrono), `search.rs` (nucleo-matcher) and `text.rs` (the standard library).

## Reading the contracts

Each type has a model, a mathematical value that its view gives, and contracts speak of models. A
public function's `ensures` gives its result exactly. Proof functions named `law_..` state what holds
across functions.
