# Kaonic

The verified core of the Kaonic gateway, of its settings dashboard and of the push-to-talk
plugin, and the programs around it.

* `src/` is the library: the rules of the three programs, each function with its contract,
  proved by Verus. `ptt/` holds the push-to-talk plugin (packets, the voice codec, sessions,
  the search for a sound device), `gateway/` the radio, the bridges, the mixer and the start,
  `http/` what requests are answered, `pages/` what the pages show, `dashboard/` the settings
  form. The other modules are shared: text, numbers, addresses, tables.
* `tests/` runs the library on concrete values.
* `app/` is ordinary Rust: one program with the subcommands `gateway`, `dashboard` and
  `audio-ptt`. It reads, sends and serves; what to do is asked of the library. What needs the
  radio, the mesh or the device goes through the traits in `app/drivers.rs`.
* `extras/web/` holds the pages, scripts and styles that the programs serve. They are looked up
  under `extras/web`, or where `KAONIC_WEB_DIR` says.
