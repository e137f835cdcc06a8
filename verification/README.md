# vyges-opendb (verified core)

A safe API over OpenROAD's OpenDB design database (`libodb`), with every decision the API
makes verified by Verus.

- `src/` — the verified library:
  - `error` — typed errors and their messages; path-to-string conversion (UTF-8 check).
  - `text` — text helpers with contracts: splitting `inst/pin`, decimal names, lexicographic order.
  - `ops` — the database operations the edits issue and the answers they take.
  - `insertion` — buffer and antenna-diode insertion on a pin, as step machines.
  - `eco` — the `InsertECOBuffers` / `InsertECODiodes` steps over a list of targets.
  - `placement` — the manual global / macro placement steps.
  - `report` — cell-frequency table, disconnected pins, Verilog header.
  - `cli` — the command-line grammar of the `vyges-opendb` and `insert-eco-buffers` tools.
- `app/` — the database handle over the native library, the config files (serde), and the
  tools' entry points; it performs each operation a step machine asks for and hands back
  the answer.
- `tests/` — the library run against an in-memory netlist, and the reports and grammar on
  concrete values.
