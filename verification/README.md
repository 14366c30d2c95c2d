# valkey_array

Array commands for [Valkey](https://valkey.io/) (`ARSET`, `ARGET`, `ARGREP`, `AROP`, ...):
a sparse array of byte strings per key, addressed by unsigned 64-bit positions, with an
insert cursor for appending and ring-buffer inserts.

The logic is a library verified with [Verus](https://github.com/verus-lang/verus):

* `src/array.rs`, `src/array/` – the sparse array (`Array`, viewed as a map from positions
  to values plus the insert cursor and the highest used position + 1) and inclusive,
  possibly descending, ranges of positions.
* `src/commands/` – for each command, the parsing of its arguments (specified against
  spec functions on the raw argument bytes) and the action it runs on an array; `ARGREP`'s
  matchers (exact, substring, glob, regular expression) and `AROP`'s integer operations.
* `src/laws.rs` – properties that span several operations (reading back a write, deleting
  undoing a set, ranges walked backwards, ordered scans, ring inserts staying in their
  buffer, ...).
* `src/utils.rs` – decimal rendering of numbers and UTF-8 checks.

Glob matching is done by `fast-glob` and regular expressions by `regex`, each behind a
small trusted wrapper whose contract names the outside result.

`app/` is the Valkey module itself: it registers the data type (with RDB persistence) and
the commands, opens keys, converts between Valkey strings and bytes, builds the replies,
and computes `AROP`'s floating-point operations (`MAX`, `MIN`, `SUM`).

`tests/` runs the library on concrete inputs.
