# syms

Project-wide symbol search with tree-sitter: every function, method, class,
struct, enum, interface, type, constant, module, trait, React component,
hook and test in a source tree, one per line (or as JSON), filtered by kind,
language and visibility.

The library under `src/` is verified with Verus:

- `parser.rs` — symbol extraction from query matches (names qualified by their
  class, impl, Go receiver or object literal; visibility per language; Rust
  test attributes; first-line signatures clipped to 120 bytes), the walk into
  injected regions (at most 8 levels), one symbol per position, semantic kinds.
- `syntax.rs` — a parsed tree held as a pre-order arena, and the searches on it.
- `language.rs`, `custom.rs`, `queries.rs` — languages, custom languages loaded
  from TOML, and the compiled queries of a run.
- `filters.rs`, `output.rs`, `picker.rs` — `--kind`/`--lang`/`-o` checking,
  symbol filters, the listing line, the fzf/sk arguments.
- `text.rs` — characters, trimming and UTF-8 widths.
- `ts.rs`, `grammars.rs` — the calls into tree-sitter and its grammars.

What tree-sitter itself produces — the tree of a parse, the matches of a
query, whether a query compiles — is taken as given: the contracts say what
the library makes of whatever tree and matches come back (one symbol per
yielding match, queries in table order, injected regions one level deeper
each), not which tree or matches those are.
- `laws.rs` — properties that span several functions.

`app/main.rs` is the command: arguments, the directory walk, file reading,
loading grammar libraries, JSON, and running the picker.
