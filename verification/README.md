# meiqiu-dict

The logic of a desktop word-lookup tool: which captured selections are
looked up, the lifecycle of the capture pipeline, dictionary lookup against
a SQLite database, window placement on monitors, and the speech request.
The functions under `src/` carry contracts that Verus proves, except a few
small wrappers around `std` and `rusqlite` calls, whose contracts are taken
on trust and say so in their doc comments.

- `src/` — the verified library, one module per concern (`selection`,
  `state`, `capture`, `uia`, `dict`, `window`, `tts`, `tray`, `commands`,
  `config`, `text`, `error`).
- `tests/` — tests of the library on concrete values.
- `app/` — the Tauri shell: commands, the capture threads, the tray, and the
  Windows COM and input calls. It hands plain values to the library and
  acts on what the library decides.
