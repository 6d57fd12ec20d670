# newspenguin_bot

A bot that reads the NewsPenguin RSS feed and posts new articles to a
Mastodon account, keeping what it has posted in a key-value store (the
La Chuoi JSON-RPC service, or `storage.json` when `RPC_ENDPOINT` is unset).
The store has duplicate keys: every posted link is written as one more value
of the single `posted link` key, and an article is posted only when its link
is not among those values. `storage.json` keeps each key as an array of its
values.

- `src/` is the verified library. `run.rs` holds the state machine of one
  run: it asks for the feed, the time of the last run, whether each fresh
  article was posted before, posts it, records it, stores the time of the run
  and deletes links recorded more than seven days ago. The other modules hold
  what it relies on: dates (`instant.rs`), text (`text.rs`), the feed
  (`feed.rs`), the store (`kv.rs`, `posted.rs`), JSON-RPC (`json.rs`,
  `rpc.rs`) and the Mastodon request (`mastodon.rs`).
- `app/` is the program around it: environment, HTTP over `wasi:http`, the
  local storage file, serde, and the loop that performs each action the run
  asks for.
- `tests/` exercises the library on concrete values.
