# c3_transpiler

A best-effort translator from C to C3, written in Verus. Its output will
usually need editing by hand.

- `src/` is the verified library:
  - `text` — operations on text (trimming, splitting, replacing, joining);
  - `naming` — how C names become C3 names, and the C3 names of C integer types;
  - `symbols` — the table of declared names;
  - `syntax` — the syntax tree and the questions asked of declarators;
  - `parse` — parsing with tree-sitter and copying its tree, node for node;
  - `populate` — the first pass, which records the declared names;
  - `translation` — the specification of what each node becomes in C3;
  - `transpile` — the translation itself, proved to meet that specification;
  - `case_body` — what holds of the bodies of `case` and `default` labels;
  - `enum_body` — what holds of the enumerations the translation writes.
- `app/main.rs` is the command-line program: it reads a C file, prints its
  syntax tree and writes the translation to a `.c3` file beside it.
- `tests/` runs the library on hand-built trees and on parsed C sources.
