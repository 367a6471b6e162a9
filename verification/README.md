# pgdump

A dump of a PostgreSQL database: its schemas, types, routines, tables, views and
the rest of its catalog, read with a few queries, kept in one file, and turned
into a script that drops everything again.

- `src/` is the library. What it computes is stated in contracts and proved with
  Verus: the queries, how rows become objects, the order in which views and
  tables are dropped, the script, and the archive that a dump is kept in.
- `app/` is the part that talks to the server and to the disk. The program that
  uses it supplies connections, fingerprints and the details of tables (`Hooks`).
- `tests/` runs the library on concrete values.

What holds of the library as a whole stands in the functions whose names begin
with `law_`: that every object is dropped, a view before what it reads and a
partition before its parent (`src/script_laws.rs`), what comments, the
transaction and `cascade` change (`src/script_lines.rs`), that the order in
which views are listed makes no difference (`src/view_permutation.rs`), and that
an archive gives back what was put into it (`src/archive.rs`).

Believed without proof are the contracts of calls into another crate or into
std: writing and reading a ZIP archive (`src/archive.rs`), and the small letters
of a text and appending a character (`src/text.rs`).
