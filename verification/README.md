# pit-cli

The PitFast developer CLI (`pit`), with its decisions and text layouts
written in Verus and proved against their contracts.

- `src/` is the verified library `pit_cli`:
  - `manifest` chooses the Pit Manifest (`--file`, the only `*.pit`, or the
    `app.pit` tie-break), checks its schema, digests its text and validates
    it into an application plan;
  - `project` holds `pit.toml`, the `app.pit` template of `pit init` and the
    `.gitignore` update;
  - `units` parses durations and memory sizes, `digest` writes SHA-256
    digests, `paths` and `text` hold path and character helpers;
  - `commands` holds, per command, the requests sent to PitLane and
    Circuit, the choices made along the way and the lines printed.
- `tests/` exercises the library on concrete values.
- `app/` is the program around it: argument parsing, files, processes,
  HTTP, the terminal, and the calls into PitFast's engine crates.
