# mc-cli

A terminal Minecraft server manager: it downloads and checks server jars (Paper,
Vanilla, Fabric), prepares the server folder, runs the server under a dashboard and
updates itself from GitHub releases.

- `src/` is the library, verified with Verus: text handling (words, lines, trimming,
  decimal numbers), RAM amounts, provider names and API replies, the Java version
  guard, checksums, jar names and generated files, the version listing, the release
  update helpers, and the console state machine of a running server.
- `app/` is the program around it: command-line parsing, HTTP, files, processes and
  the terminal dashboard.
- `tests/` runs the library on concrete values.
