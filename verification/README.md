# narrative

A compiler for ink stories extended with `@` directives, and a validator for
the `.inkdef.yaml` definitions that the directives refer to, written in Verus.

- `src/ink_parser`: the ink parser (a backtracking cursor over the source,
  and one module per construct), with each parse function specified by a
  spec function over the parser's view.
- `src/compiler`: the runtime object model, code generation from the parsed
  story, ink JSON output, the directives manifest and the definitions schema,
  and the checks of directives against definitions.
- `src/def_parser`: the definition types, their validation and error texts.
- `src/diagnostics.rs`: editor diagnostics for a source.
- `app/`: the `narrative` command (compile, check, play, check-defs) and the
  language server (`narrative lsp`); it reads files and YAML and calls the
  library.
