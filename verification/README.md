# compiler

A compiler from a small subset of C to UNIVAC 1219 assembly text, verified
with Verus.

`lang_c` parses the preprocessed C source; the code generator walks the
syntax tree and emits code for static, non-recursive programs: every
variable, parameter and temporary lives in a DATA word of one ORG block,
arguments travel in per-function parameter slots, and results are left in
AL.

## Layout

- `src/abi.rs`: calling-convention constants and the 18-bit one's
  complement number representation.
- `src/ast.rs`: the syntax tree the code generator reads, and its size
  measures.
- `src/frontend.rs`: the call into `lang_c` and the conversion of its
  syntax tree.
- `src/constant.rs`: integer and character literals.
- `src/text.rs`: decimal and octal numerals and string building.
- `src/model.rs`: the mathematical model of the generator's state and its
  primitive steps.
- `src/emission.rs`: the laws on how labels and instructions come out in
  the code.
- `src/scheme.rs`: the code-generation scheme, as spec functions over the
  model, and the laws about the programs it produces.
- `src/codegen.rs`: the executable code generator, proved to follow the
  scheme step for step.
- `src/size.rs`: the bound on the counters a compilation may use.
- `src/error.rs`: the errors and their messages.
- `app/`: the `cc1219` command line (argument handling and file I/O).
- `tests/`: tests on concrete programs and on the laws.
