# qubit_metadata_verified

A key-sorted metadata store with composable, resource-bounded filters and
three-valued filter evaluation, verified with Verus.

- `src/` is the verified library: the value model and its numeric and string
  orderings, the metadata store, filter conditions and expressions, the
  expression builder, filter limits and decode budgets, the V1 filter wire
  tree and envelope, and the error messages.
- `tests/` runs the library on concrete inputs.
- `app/` is the unverified edge: conversions to and from `qubit_value::Value`,
  typed reads, and the JSON documents of metadata objects and filters.
