Rusty Pine
==========

Pine is a short query language for MySQL. This:

```
users | select: id name | where: id = 3
```

becomes this:

```sql
SELECT id, name
FROM users
WHERE id = 3
LIMIT 10;
```

Tables are joined by following the foreign keys of an analyzed database, so
`users | userPreferences` becomes

```sql
SELECT userPreferences.*
FROM userPreferences
LEFT JOIN users ON users.id = userPreferences.userId
LIMIT 10;
```

Layout
------

- `src/` is the library, written in Verus. Each function with a body has a
  contract that the verifier proves, except two trusted wrappers around the
  `regex` crate (`captures` and `find_all` in `engine/sql/parsing.rs`), whose
  results are named rather than described, and which the verifier takes on
  trust. The traits `CacheKey` and `Cacheable` in `cache.rs` only declare
  their methods; what each implementation returns is stated on the
  implementation.
  - Positions in the input (the sources of what was read, and where a syntax
    error stands) are counted in bytes of its UTF-8 encoding.
  - `engine/syntax` reads a pine in stages (the grammar is at the top of
    `stage2.rs`): stage 2 reads the text into pines, stage 3 gives each pine the
    tables the pines before it imply, stage 4 gathers them into one structure.
  - `engine/query_builder` turns that structure into a query, with join
    conditions taken from the database structure.
  - `engine/rendering` writes the query as SQL.
  - `engine/sql` holds the database structure, reads `SHOW CREATE TABLE`
    statements (through the `regex` crate), and writes the statements sent to
    the server with their names safely quoted.
  - `cache`, `context`, `cli`, `analyze` and `lsp` hold what the program
    decides about its cache, contexts, command line, database analysis and
    language server.
- `app/` is the `pine` program around the library: the command line, the
  cache files, the MySQL connection, prompts, the HTTP server and the language
  server.
- `tests/` runs the library on examples.

Usage
-----

```bash
pine create-context --host <hostname[:port]> --default-database <db> --username <user> <name>
pine use-context <name>
pine analyze
pine translate "users | s: id name"
```
