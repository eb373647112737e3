# respon-cli

A command-line client that probes attendance codes of the `atmnb.tsukuba.ac.jp`
attendance service: whether a code exists, whether it is open now, and its status.

The library under `src/` holds the client's logic and is verified with Verus:

- `text` — character-level helpers (search, prefixes, ASCII case, white space, digits).
- `address` — absolute URLs, parsed and resolved by the `url` crate.
- `json` — JSON values as `serde_json` reads them, and member/string/array lookups.
- `html` — the script texts and forms of a page, as `scraper` parses it.
- `protocol::page` — rejection codes, forms, the authenticity token, card IDs, page kinds.
- `protocol::status` — the outcomes of a probe.
- `protocol::client` — the probe as a step function from the last answer to the next request.
- `commands` — the answers of the `exists`, `available` and `status` commands.
- `cli`, `diagnostics`, `error` — arguments and code validation, verbose lines, errors and exit codes.

`app/` is the program around it: argument parsing with `clap`, the HTTP requests
with `reqwest`, printing, and the error type with its `thiserror` display.

Notes on the command's behaviour:

- `CodeRejection::code_exists` answers whether a refused code exists (the name
  `exists` is reserved in Verus).
- The steps after a code is found to be available (logging in, confirming and
  submitting attendance) are not implemented: they need a model of the
  confirmation and completion pages (`ConfirmationSpec`, `Completion`) that this
  project does not have. `attend` therefore only echoes the validated code.
