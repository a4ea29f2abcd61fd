# spacebot

The logic of an agentic messaging system, as a library whose contracts are proved
with Verus.

- `src/` holds the verified library.
  - `config` and `api` read, resolve and edit the configuration, and answer the
    requests of the HTTP interface.
  - `messaging` decides which messages of Slack, Telegram and the webhook are taken in
    and how responses are cut and sent.
  - `agent`, `hooks`, `llm`, `prompts` and `opencode` hold the processes of an agent and
    their talk to models and coding servers.
  - `memory`, `conversation`, `cron` and `settings` hold what an agent remembers.
  - `json`, `toml_doc`, `outside`, `hashing` and `text` state what is relied on of other
    crates and of the standard library.
- `tests/` runs the library on concrete values.
- `app/` is the program around it: files, sockets, databases and floating-point scores.

`Cargo.toml` names `takecell` though nothing here calls it: it holds a dependency of
`teloxide` to a release that the compiler in use can build.
