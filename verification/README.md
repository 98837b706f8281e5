# devserial

A bridge between serial hardware and language models: it captures what serial devices send, keeps
every line in SQLite, and offers reading, searching, exporting and hardware control as MCP tools, in
a native window and in a terminal.

## Layout

- `src/` is the library. Every decision, format and piece of bookkeeping stands there, with its
  contract, and is verified with Verus.
  - `text`, `names`, `hex`, `clock`, `json`, `pattern`, `sql`: texts, maps keyed by text, hex
    notation, times, JSON objects, regular expressions, SQLite statements
  - `config`, `state`, `storage`: configuration, the state that outlives a run, the lines of a port
  - `reader`, `port_manager`: from bytes to stored lines, reconnecting, the managed ports
  - `server`, `search`, `export`, `control`, `esp`: what the tools decide and answer
  - `monitor`, `tui`, `standalone`: the state of the two monitors
  - `testutil`: generated serial output and a mock device
- `tests/` runs the library on concrete values.
- `app/` is the program around it: the command line, the tasks, the devices, the windows.

## What is proved

A function's contract says what it returns or changes, and when it fails. What a database in a file
holds when it is opened, and whether SQLite can carry a statement out, no contract says: a call that
SQLite refuses hands its error on. The public proof functions whose names
begin with `law_` state what holds of the library as a whole: no byte is lost on the way from a
device into the buffer, ids have no gaps, a read gives back what was stored, a reader that goes on
after the last id it received misses no line, a bounded buffer keeps to its bound, two ports never
share a file, a comma-separated export can be read back, waits between attempts to reconnect grow up
to their cap, and so on.

SQLite, chrono, regex and serde_json are called through small functions in `sql`, `clock`, `pattern`
and `json`, whose contracts say what these crates are relied on for. A database in a file can be
changed by another process between two calls; the contracts speak of the state that a call found.
