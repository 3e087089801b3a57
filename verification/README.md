# sysproxy

Reads, sets, clears and watches the system proxy settings: GNOME-like desktops
through `gsettings`, KDE through `kreadconfig`/`kwriteconfig`, macOS through
`networksetup`, Windows through WinINet or the Internet Settings registry key.

## Layout

- `src/` is the verified library. It decides everything that does not touch the
  system: how tool output is parsed into a `ProxyConfig`, which commands,
  registry writes or WinINet options an operation needs, how the environment of
  the desktop tools is built, what each watcher step means, and the guard's
  state machine. Every public function states its result exactly in its
  contract; `law_*` proof functions state what holds across functions (reading
  back what was written, the guard restoring its setting, server texts splitting
  back into host and port). The read-back laws go through small spec models of
  the tools' stores and of what their read commands print (`kde_store_after`,
  `gnome_store_after` with `gsettings_printed`, `networksetup_after` with the
  report texts, `registry_after`, `wininet_after`); the models are stated, not
  proved against the tools.
  - `text.rs`, `strmap.rs`: character-level string operations and a string map.
  - `types.rs`, `options.rs`, `error.rs`: configuration, options, errors.
  - `platform/`: the Linux, macOS, Windows and fallback backends.
  - `watch/`: the Linux, macOS and Windows watchers.
  - `guard.rs`, `bindings.rs`: the guard, and the JavaScript-facing shapes.
- `app/` is the command-line program: it runs the planned commands, system calls
  and waits, and prints the results.
- `tests/` runs the library on concrete inputs.
