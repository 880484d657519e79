# fugle_marketdata

A market-data streaming client whose core is verified with Verus.

- `src/` is the verified library: endpoint derivation (`factory`, `urls`,
  `version`), connection settings (`config`, `health_check`,
  `reconnection`), subscriptions and their bookkeeping (`channels`,
  `models`, `subscription`), the wire protocol and its JSON model
  (`json`, `protocol`), the connection lifecycle as a state machine
  (`session`), the message receiver (`message`), and the decisions of the
  script and desktop front ends (`bindings`, `gui`).
- `app/` runs the state machine over a blocking `tungstenite` socket,
  builds its `rustls` configuration, decodes inbound frames with
  `serde_json`, and holds the serializable copies of the front-end types.
- `tests/` exercises the library on concrete values.
