# side_lang

A compiler for a small imperative language (`.sd` files) that emits C.

The library in `src/` is verified with Verus:

- `lexer` turns source text into tokens with byte ranges (`lex`, proved
  against `lex_spec`);
- `parser` is a recursive-descent parser proved against the grammar written
  as spec functions in `grammar`; error messages carry line and column;
- `typing`, `scope`, `emit`, `emit_stmt` and `codegen` check types and
  produce the C text (`try_generate`, `generate`, proved against
  `gen_program`);
- `driver` reads a source (`parse_source`), records loaded imports and merges
  imported programs (`merge_programs`).

`app/main.rs` is the command-line program: it reads the files, follows
imports, writes `temp_output.c` and runs `gcc`.
