# bili_hardcore

A terminal program asks language models for the answers to a quiz. This crate is its logic,
verified with Verus: the requests in the terms of six protocols, the reading of replies, the
choice and the paging of models, the settings, and what the keys do.

- `src/llm`: the protocols and their addresses, the adapters, and the exchange that follows a
  request. `exchange` and `jev_exchange` decide on each event what to report and what to wait
  for; `outcome`, `jev_outcome`, `address` and `efforts` prove what holds of them.
- `src/config`, `src/state`, `src/input`, `src/keys`: settings, the state of the user interface,
  what the keys do, and what holds of it.
- `src/text`, `src/json`: texts and JSON values.
- `app`: HTTP, files, the clock, the keyboard and the browser around it.
- `tests`: the library from outside.
