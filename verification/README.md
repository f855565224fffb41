# sol2ink

Reads a Solidity contract or interface and produces the structured model
(`structures`) from which ink! code is assembled. The library in `src/` is
verified with Verus; `app/` holds the command-line program, the file I/O and
the code generation with `quote`.

Layout of `src/`:

- `structures`: contracts, interfaces, declarations, statements, expressions.
- `model`: the mathematical models of statements and expressions.
- `text`, `formatter`, `cursor`, `imports`: character sequences, `split` and
  `trim`, the character stream, the set of import lines.
- `pattern`, `patterns`: the regular expressions, the trusted access to the
  `regex` crate and the clamped substring.
- `types`, `scope`: type conversion and what a contract declares.
- `expressions`, `statements`, `statement_parser`: expressions and statements,
  with their spec functions.
- `scanner`, `declarations`, `parser`: reading comments, bodies, declarations,
  contracts, interfaces and whole files.
- `declared`: refusing a contract that emits an event, or builds a struct
  from positional arguments, without a declared field for each argument.
- `shape`: what each generated ink! message looks like (visibility, message
  attributes, receiver, snake-case names, return type).
