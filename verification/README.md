# snow_core

The rules of a client core for ServiceNow, written in Verus: what to ask the
provider, what its answers mean, and what is kept of them.

- `src/` is the library. It does no input or output. A flow that needs answers from
  outside is a value that says what it asks next and takes the answer: the resolution
  of a record (`resolution`), the lookup of a user (`user_call`), the search of a table
  for a name (`table_search`), a run of embeddings (`embedding_run`), the reading of a
  queue (`queue_call`), the write of an incident (`write_result`). Queries are plain values (`query`), rows and failures too
  (`row`).
- `app/` asks: it turns the queries into requests of the ServiceNow client, the records
  into rows, and runs the flows. Floating point stays there: the weights of words, the
  similarity of vectors, shares of time and hours.
- `tests/` runs the library on values.

Contracts are stated over texts as sequences of characters. What depends on another
crate has a name: the SHA-256 of a document (`document::sha256`), how chrono reads and
writes points in time and days (`timestamp`), how serde_json reads a list of tags (`tags`), how
letters are made small (`record_name_resolver::lowercase`).

Laws that relate several functions are public proof functions beside them, such as
`knowledge_sync::watermarks_are_the_latest` and
`knowledge_refresh::incremental_refresh_equals_recounting`. Three modules hold nothing but
laws over several calls: `paging` (following the cursors of a long document reads it
whole), `search_history` (a record is told to be nowhere only after every table was asked)
and `name_history` (the pages of a search by name hold each record once).
