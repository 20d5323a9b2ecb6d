# table_commit

Commits to the metadata of an Apache Iceberg table, verified with Verus.

- `src/apply.rs`: `apply_table_updates` applies the updates of a commit to a metadata document, in
  order. `src/laws.rs` proves what every commit keeps and how commits combine.
- `src/semantic_binding.rs`: `validate_physical_bindings` checks what a plan expects of the
  physical fields of a table against its schema and reports all drift. `src/binding_laws.rs` proves
  that it reports all drift and nothing else.
- `src/table_metadata.rs`, `table_update.rs`, `schema.rs`, `types.rs`, `snapshot.rs`, `layout.rs`,
  `statistics.rs`: the data, each type with its model.
- `src/name_map.rs`, `collections.rs`, `text.rs`: a map from names to values, sequence helpers and
  text building.
- `src/error.rs`: errors and their texts, which come from `datafusion-common`.
- `app/`: the same commits with the error type of the query engine.
