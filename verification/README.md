# serena

An MCP toolkit for coding agents: symbol-level code editing, project and
memory bookkeeping, file and search tools, and the catalogue of tools an MCP
server offers, with contracts proved by Verus.

## Layout

- `src/` — the verified library.
  - `editor` — symbolic edits (insert before/after, replace body, delete,
    rename) located by the first literal occurrence of a symbol.
  - `catalog` — the built-in tools, their input schemas, the registry of tools
    by name, and the decoding of a call's arguments into a typed request.
  - `memory` — memory paths, ids, the framing of memory files and listings.
  - `project`, `setup`, `provider`, `symbol`, `lsp_session` — projects,
    language detection, language server configurations, symbols and the
    decisions of a language server session.
  - `tools` — the decisions of the file, search, shell, memory, configuration
    and symbol tools.
  - `text`, `paths`, `namemap`, `sorting`, `pattern`, `util` — the text model,
    path pieces, name-keyed maps, ordering by name, regular expressions and
    normalisation helpers.
- `tests/` — tests of the library.
- `app/` — the command-line program: the MCP server over stdio, the language
  server client, and the file, process and memory input and output.
