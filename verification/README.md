# indicator_store

Record logic for a store of technical-analysis indicators, verified with Verus.

- `src/` is the verified library: the rows an indicator and its inputs are
  stored as, the indicator rebuilt from the rows read back (in any order),
  indicator sets assembled from their rows, the functions an indicator from a
  configuration file is stored with, random populations of indicator sets, and
  the spread of input values that test runs pick from.
- `app/` is the program around it: the PostgreSQL schema and queries, reading
  configuration files, and generating test runs.
- `tests/` runs the library on concrete values.
