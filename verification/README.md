# json_reader

Reads newline-delimited JSON into Arrow record batches. The schema is given, or inferred from
the records.

- `src/` is the library, verified with Verus. `text` and `value` hold JSON values, `types` and
  `infer` infer schemas, `cells` says what the cell of a column is for a JSON value, `columns`
  fills columns, `reader` reads batches and `builder` sets a reader up. `arrays`, `batch` and
  `casts` wrap the builders, arrays and batches of `arrow` and the casts of `num`. `laws` states
  what holds across the functions.
- `app/` reads files and takes the schemas of `arrow`.
- `tests/` runs the library.

Floating point numbers go through the library by their bit patterns.
