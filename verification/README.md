# iceberg_schema_provider

A query engine's schema over one namespace of an Iceberg catalog, verified with
Verus.

The schema keeps the names of the tables in the namespace. A table itself is
loaded from the catalog each time it is looked up. A name of the form
`table$metadata` asks for a metadata table of a table, such as
`orders$snapshots`.

- `src/` is the verified library: what exists, what is listed, and what each
  step of a lookup, of the creation of a table and of the dropping of one asks
  for and changes. It calls `dashmap` for the set of names and `iceberg` for the
  metadata tables and for the conversion of Arrow schemas, each behind a
  function whose contract is believed rather than proved.
- `src/laws.rs` states what holds of the schema as a whole.
- `app/` drives the steps against a live catalog and offers the result to the
  query engine as a `SchemaProvider`.
- `tests/` runs the steps on plain values and against a catalog in memory.
