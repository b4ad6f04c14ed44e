# codemark

Structural bookmarks for source code: a bookmark stores a tree-sitter query
for the code it points at and a content hash of that code, and resolution
finds the code again after edits (exact query, relaxed query, minimal query,
then a walk over named nodes looking for the stored hash).

The library is written in Verus. Its own functions are verified against
their `requires`/`ensures` contracts. Calls into tree-sitter, regex, sha2,
chrono, shlex and a few std functions go through small wrappers marked
`#[verifier::external_body]` (and named results such as `parse_nodes` or
`query_matches`); their contracts are trusted, not proved, and each says in
its doc comment what it claims of the outside code.

Layout:

- `src/engine` — bookmarks and their health, content hashing, breadcrumbs,
  resolution tiers, healing decisions, UI status projection, snapshots.
- `src/query` — running queries, relaxing and minimizing them, summarizing
  them, classifying node kinds.
- `src/parser` — languages, the parse cache, profiles, the registry of
  dynamic grammars, and the thin layer over tree-sitter (`syntax.rs`).
- `src/grammar` — grammar install paths, name and extension validation.
- `src/git` — forge detection, remote URL parsing, git command outcomes.
- `src/cli` — argument parsing of the command handlers, server and account
  selection, login and pull decisions, external subcommands.
- `src/text.rs`, `src/numbers.rs`, `src/pattern.rs` — verified string,
  number and regex helpers.
- `app/` — the command-line program: argument definitions, process and file
  system access; no Verus.
- `tests/` — tests run against the compiled library.
