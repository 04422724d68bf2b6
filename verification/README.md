# linear_board

A local kanban board that mirrors the status of its cards in Linear, written and
proved in Verus.

- `src/` is the library. Everything in it is verified.
  - `board/` holds the tables (boards, columns, cards, workspaces, pull requests)
    and all that is done with them; `board/laws.rs` holds what is kept by all of it.
  - `linear/` builds requests to the Linear API and judges its answers.
  - `monitor.rs` decides what is pushed to Linear and what is brought in from there.
  - `routes/` answers the requests of clients.
  - `config.rs` is the configuration, `github/` the GitHub command line tool.
  - `text.rs`, `json.rs`, `ids.rs`, `time.rs`, `string_map.rs`, `order.rs` and
    `lists.rs` are what the rest is stated in.
- `app/` is the service around it: SQLite, HTTP, the clock, the configuration file.
- `tests/` runs the library.

Positions of cards are floating-point numbers outside of the library. Inside they are
integers in the same order; `app/convert.rs` goes from one to the other.

What the library has from other crates (`uuid`, `serde_json`, `chrono`, `url`) is
called through small functions marked `external_body`. The comment above each of them
says what is taken on trust.
