# TouchHouse

A column-oriented database with a verified core.

* `src/` is the library, verified with Verus: values and their order, SQL planning, plan optimization,
  filters, aggregation, table engines, parts and granules, the files on disk, background merges, the
  start of the database and the wire protocol. Its functions have contracts, and laws
  that span several functions are public proof functions.
* `app/` is the server around the library: configuration, file and network I/O, threads, serialization
  and floating-point arithmetic.
* `tests/` holds the tests of the library.

What the library has from outside crates (parsing SQL, LZ4, CRC-32, UUIDs) stands behind small
functions whose contracts are believed; each names the outside function that it calls and says what
is claimed of it.

## Where to start

* `sql/command_runner.rs`: from the text of a command to the plan that is executed.
* `sql/plan_optimization/query_flattening.rs`: nested queries merged into one.
* `sql/execution/select/`: a query from its first granule to its last row; `table_laws.rs` there says
  which rows it answers with, and `chunk_laws.rs` that it does not matter how they were cut.
* `sql/execution/table_scan_laws.rs` and `insert_laws.rs`: which rows of its parts a table answers with,
  and that what was inserted is selected.
* `engines/`: how rows are ordered and which are kept; `engines/laws.rs` states what that means.
* `storage/table_part.rs`: parts, their granules and marks, and that what was written reads back.
* `background_merge.rs`: how two parts become one, and what happens when a step fails.
