# unco

Records described by a schema, for a document database.

`schema! { Post { id: UncoId, title: String ~{require: true}, count: i64 } }`
declares a record type `Post` whose data is a map of JSON values, with one
accessor per column, `cast` (record the changes to schema fields),
`unco_validate` (list the required fields that are missing), `is_valid`,
`data`, `changeset` and `content` (what is written back).

Layout:

- `src/` — the verified library:
  - `token.rs`: the flat token model of a macro call;
  - `rtype.rs`: the grammar of a Rust type, which ends a column's type;
  - `parse.rs`: the grammar of a schema declaration and its parser;
  - `shape.rs`: how an accessor converts a stored value, by the column type's shape;
  - `model.rs`: the plan of what a declaration expands to (`derive`);
  - `table.rs`, `record.rs`: the run-time behaviour of a record (cast,
    validation, content), over JSON texts;
  - `json.rs`: when two JSON texts hold the same value;
  - `id.rs`: row identifiers (`table:key`).
- `app/` — the database connection, the serde forms of the identifiers, and
  the expansion that turns the plan into code.
- `tests/` — the library's tests.
