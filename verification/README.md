# wanix_cli

The request handling, terminal protocol and command-line policy of the
`wanix` command line, written in Verus with their behaviour stated as
contracts and proved.

## Layout

- `src/` — the verified library.
  - `http/` — request parsing (`request`, `headers`), response framing
    (`response`, `framing`), routes and content types (`routes`), app routes
    (`app`), the gateway's verb and error mapping (`gateway`) and streamed
    bodies (`stream`).
  - `serve/` — the `serve` command line (`command`), boot readiness
    (`boot`), the discovery document (`discovery`), the direct-v86 page
    (`html`), `--grant`/`--peer` (`grant`), `--bind` (`webdoor`), the
    websocket byte stream (`ws_reader`) and error-stream notes
    (`diagnostics`).
  - `terminal/` — the qjs shell: input tracking and mutation operations
    (`activity`), command records (`command_record`, `observation`), the
    websocket messages (`protocol`, `resize`, `route`), the command history
    (`history`) and root change tracking (`root_changes`).
  - `volume.rs`, `volume/` — volume names, paths and the `volume` commands.
  - `tool.rs`, `tool/` — built-in tools, `tools.toml` policy, the verdicts on
    a host process run and the `tool serve` command line.
  - `text.rs`, `seqs.rs`, `error.rs` — text helpers and the CLI error.
- `tests/` — tests of the library, run against the compiled crate.
- `app/` — the `wanix` binary: arguments, sockets, files and the terminal,
  around the library.
