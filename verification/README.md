# gemini_provider

A verified library for talking to Gemini models: which models there are and in what order they
are shown, how a conversation and its tools are written for the service, and what the answers of
the service mean.

- `src/` is the library. Every function carries a contract, and the `law_*` proof functions state
  what holds of the library as a whole.
- `tests/` runs it on concrete values.
- `app/` puts it to work: the environment, the catalog of models on disk, and the asynchronous
  exchange with the service over a transport that the embedding program brings.

JSON text is read and printed by `serde_json`; the items at the top of `src/json_text.rs` and of
`src/json.rs` say what is relied on.
