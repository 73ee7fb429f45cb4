# proserpina

Cross-examines a document with a panel of critic personas and folds their
critiques into a report of findings.

- `src/` is the library, verified with Verus: the data model (agents,
  personas, panels, messages, transcripts), the interaction graphs and the
  runner that walks them, the report and its markdown digest, the summary
  parser, the provider registry and roster, credential resolution, the
  retry decisions of the HTTP backend, and the OAuth PKCE values and
  callback parsing. Every public function carries a contract; `laws.rs`
  holds the properties that relate several functions.
- `app/` is the `proserpina` command: argument parsing, files, the
  environment and the OS keychain, HTTP requests, the OAuth callback
  listener, and JSON output. It hands plain values to the library and
  takes plain values back.
- `tests/` exercises the library on concrete inputs.
