# reliquaint

A launcher for classic DOS and Amiga games described by TOML manifests in
subscribable "taps". The library under `src/` holds the launcher's logic,
written in Verus and proved against its contracts; `app/` is the
`reliquaint` command line around it.

## Layout

- `src/` — the verified library. Each module takes what was read from disk
  or the host as plain values and returns plain values:
  - catalog entries and their rules (`catalog`), taps (`tap`), install
    records (`install_record`), subscriptions and priorities
    (`subscriptions`, `tap_ops`, `tap_reorder`), the user's configuration
    (`user_config`);
  - the merged catalog with priority-based conflict resolution
    (`catalog_view`, `listing`);
  - launching: emulator command lines and sidecars (`launch`, `runner`,
    `sidecar`);
  - installing: source classification, staging and commit decisions
    (`game_install`), bulk discovery (`discovery`), artwork (`artwork`);
  - the add-a-game wizard: directory heuristics, draft manifests,
    validation and placement (`heuristic`, `draft`, `wizard`);
  - companion documents: indexing, Markdown rendering and sanitising,
    the image and document protocol (`companion`, `companion_render`,
    `companion_protocol`);
  - diagnostics (`doctor`), exporting for submission (`export`), host
    setup hints (`setup`), git results (`tap_fetch`), paths (`paths`),
    and text helpers (`text`, `order`).
- `tests/` — tests run against the compiled library.
- `app/` — the command line: argument parsing, reading and writing files,
  running git, the install tools and the emulators, and printing.

## What is trusted

Calls into outside crates (`pulldown-cmark`, `ammonia`,
`percent-encoding`, `shellexpand`) and a few `std` functions (`String`
pushes, Unicode case mapping) sit behind small wrappers whose contracts
are stated, not proved; each wrapper's doc comment says what it claims.
In the Markdown pipeline the trusted parts are the parse into events, the
HTML writing, and the HTML cleaner run with a policy whose every setting is
a value the library states; choosing events (images, raw HTML), turning raw
HTML into text and rewriting destinations are verified functions on plain
event values. Everything else in `src/` is verified.
