# hasselc

A compiler for Hassel, a small systems language, to 6502 assembly, written
in Verus: each stage states what it produces in `requires`/`ensures`
contracts, and Verus proves the code against them.

The stages, in `src/`:

- `parse`: the syntax tree, the messages for parse problems, and the
  unescaping of string literals.
- `ir`: the intermediate representation. `generator` resolves names, lays
  out frames and evaluates constants; `type_checker` infers, implies and
  resolves the types of every statement.
- `llir`: the low-level representation, runs of simple statements over
  memory places, with `builder`, the operation generators under `binop`,
  `generator`, `optimizer` and `debug_text` (the readable text of each
  statement).
- `code`: 6502 instructions, their register allocator (`register`), their
  generation from the low-level representation (`generator`), the removal of
  redundant loads (`optimizer`) and the assembly text (`block`).
- `compiler`: the whole pipeline, from the syntax tree to the assembly text.
- `symbol_table`, `base_type`, `type_expr`, `types`, `src_tag`, `text`,
  `error`: the shared pieces.

The tests under `tests/` build programs by calls and check the assembly and
the errors that come out.
