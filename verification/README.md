# null-launcher

A Minecraft launcher whose decision logic is a library verified with Verus.

- `src/` — the verified library: Maven coordinates, library rules, merging
  of inherited version descriptions, argument placeholders and the launch
  command line, mod-loader metadata and installer data maps, the entries
  of jar archives, download checks, resumption and the retry policy,
  install progress, Java runtime selection and the offline player UUID.  Every public function states its result in
  `ensures`; laws that span several functions are public proof functions.
- `tests/` — tests of the library on concrete values.
- `app/` — a command-line front end: HTTP, files, processes and JSON, handing plain values to the library and acting on what it returns.
  Each command prints its result, and its progress events, as JSON lines.
