# scrcpy_mask

A key-mapping mask for Android devices driven through the scrcpy server: the
web page configures it, key mappings and small scripts act on the device, and
the device's video is shown under the mask.

The library (`src/`) is verified with Verus. It holds:

- `script/`: the mapping script language. `lexer` and `parser` turn a script
  into its syntax tree and are proved equal to the token and grammar models
  (`lexer::lex_spec`, `grammar::script_spec`); `interp` evaluates a tree and is
  proved equal to the evaluation model of `semantics`; `host` records what a
  script asks of the device (touches, keys, key repeats, text) and keeps the
  scripts' toggles and variables (and decides the global print limit);
  `laws` states properties of the language.
- `mapping`: auto-repeat keys and script mappings (validation, parsing,
  what a key event runs).
- `mask`, `video`: the mask window's command decisions and the video
  display's decisions.
- `scrcpy/`: the device server's stream formats (metadata, packet headers,
  configuration merging, frame copies) and the session's command line.
- `web`, `web/`: the web API's key check, page, configuration endpoint and
  device replies.
- `config`, `utils`, `text`, `assoc`: configuration upgrades, file names,
  session ids and keys, release versions, text helpers and small maps.

`app/` is the program around the library: the configuration file and the
web server (configuration, update check, the page). The device side (adb,
the device server connection, the mask window) is not part of it; the
stream readers and the script runner in `app/` are written against the
library but not started.

`tests/` runs the library on concrete values.
