# webots_proto

Parsing, writing, validating and expanding Webots PROTO and world documents, with the
behaviour of each operation stated in Verus contracts and proved.

## Layout

- `src/` — the verified library.
  - `ast`, `builders`: the syntax tree, its mathematical model and its constructors.
  - `text`, `lexer`, `header`, `parser_spec`, `parser`, `document`: tokens and parsing,
    each stated against a specification of the grammar.
  - `writer`, `canonical`, `canonical_declarations`: lossless and canonical writing,
    and the round trips between writing and parsing.
  - `schema`, `builtin_nodes`, `builtin_names`, `validation_spec`, `validation`,
    `diagnostics`: node schemas (whose field names hold no `_`) and document
    validation.
  - `resolver`, `expand_spec`, `expand`: EXTERNPROTO resolution, `IS` substitution,
    inlining of PROTO instances and mesh URL normalization.
  - `json`, `conversion_spec`, `conversion`, `number`, `r2025a`: the JSON form of
    nodes and the R2025a node types and enumerations.
- `tests/` — tests of the library.
- `app/` — file access, template rendering, the typed R2025a nodes with their serde
  derives, and the expansion loop that reads files from disk.
