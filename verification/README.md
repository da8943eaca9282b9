# doover

The logic of Doover device applications and cloud processors, with its behaviour
stated in contracts and proved by Verus.

`src/` is the library.

- `json`, `json_text`, `text` — documents, their text, and strings.
- `diff`, `diff_laws` — merging documents and finding what changed.
- `events`, `models`, `channel_backend`, `error` — what travels over channels.
- `tags` — tag values: key paths, buffered writes, log triggers, typed handles.
- `config` — configuration schemas, typed loading, export.
- `rpc` — remote calls over channel messages.
- `api` — requests to the cloud data API, and what is made of the replies.
- `processor` — one invocation of a cloud processor, from event to summary.
- `docker` — applications beside a device agent: the agent, the hardware sidecars,
  subscriptions, options, the run loop.
- `application` — the plain run loop with a tag buffer.
- `derive` — what declarations of configurations, choices and tags expand to.
- `cli` — arguments and the shapes of printed results.
- `testing` — channels kept in memory.

Public proof functions named `law_..` state what holds of the library as a whole.
Every outside function that the proofs rely on stands behind a wrapper whose doc
comment says what is believed of it.

`tests/` runs the library. `app/` is the code around it that reads and sends: HTTP,
the sidecar connections, the Lambda entry point, the command line, and the front end
of the derive macros, with the names that expanded declarations use
(`app/facade.rs`). The sidecars' protocol client is generated elsewhere and enters
through `app/wire.rs`.
