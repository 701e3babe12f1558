# icale_core

The core of the icale planner: a character domain model, the conversion of
SQL execution results into JSON rows, and the statement building and result
assembly of a character repository stored with GlueSQL, all verified with Verus.

- `src/service/character/domain`: characters, profiles, appearances.
- `src/glue`: execution results as JSON rows (`convert`), row extraction.
- `src/service/character/port/repository`: repository errors and search types.
- `src/service/character/adapter/repository`: SQL statements (`sql`, over
  `sql_builder` and `gluesql::parse`), the stored row model (`glue`), a
  lexical scan of scripts (`scan`) and the proofs that the repository's
  statements pass it (`lexical`).
- `src/text`: decimal rendering and string helpers.
- `app/`: the storage engine, settings loading, serde decoding and the clock.
