# maka_codegen

The C back end of the Maka compiler, with contracts that Verus proves.

`emit` and `emit_freestanding` turn a resolved and typed module into one C translation
unit. Their contracts give the whole text: `module_c` is a function of the module, built
up from a spec function for every construct. `module_ok` says for which modules it is
defined: every index is in range, every type that is spelled has a spelling, and no
inline function expands into itself.

## Layout

- `hir`: the input.
- `text`, `sorted`: strings and ordered maps.
- `ctypes`, `operators`, `values`, `places`, `patterns`, `builtins`, `frames`: the C text
  of types, operators and the single shapes of expressions and statements.
- `analysis`, `drops`, `layout`, `scan`: what has to be known about a program before its
  text can be written: loop bounds, ownership, definition order, used types.
- `context`, `validity`, `lowered`: the state of lowering, when it is defined, and the
  text it yields; `expressions`, `matches`, `statements`, `inlining`, `functions` compute
  that text.
- `typedefs`, `definitions`, `dispatch`, `module`: the sections of the output.
- `scan_laws`, `lowering_laws`, `depth_laws`, `spare_depth`, `ownership_laws`,
  `expansion_laws`, `bounds_laws`, `checks_kept`, `vector_laws`, `module_laws`: what holds of
  the output as a whole.
- `runtime`: the C text of the run-time support.
- `app`: the conversion of floating-point literals.
