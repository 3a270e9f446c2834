# dsh_launcher

The DSHLauncher desktop launcher for `dsh web` on Windows (tray icon,
embedded WebView2 window, supervision of the dsh service) and its
uninstaller, with the deciding parts verified by Verus.

## Layout

- `src/` — the verified library. The decisions the launcher and the
  uninstaller make are functions here with `requires`/`ensures`
  contracts (the one exception is named under `app/` below): command-line parsing, settings (defaults, validation, the legacy INI),
  credential redaction in log lines, log rotation, the service record and
  its reconciliation, the service monitor and start-up state machines, the
  interface's authentication checks and the parsing of its theme sample, the settings page's command
  format, the tray menu, `.ico` decoding, the `.rc` resource text, the
  `~/.dsh` maintenance (archived sessions, stale locks), process-tree
  traversal, Windows path comparison, and the uninstaller's guards, plan,
  routing and reports. Properties that span calls (such as the rolling
  log keeping its file count and sizes over any run of writes) are stated
  as public proof functions (`lemma_*`).
- `tests/` — tests run against the compiled library.
- `app/` — the program around the library: `main`, Win32 calls, files,
  threads, the tao/wry windows and the tray, the rolling log file. It hands
  the library plain values and carries out what it returns. The one
  decision kept there is whether a page background colour is dark
  (`is_dark_color`), which works in floating point.

Calls into other crates (`serde_json`, `dirs`) and a few std functions are
reached from `src/` through small trusted wrappers whose contracts say what
the library relies on; each names the function it calls.
