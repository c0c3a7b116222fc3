# sv_lang

Four-state SystemVerilog integers and the plain-data vocabulary of a
SystemVerilog compiler front end (options, flags, operator kinds, constant
values, diagnostics), written in Verus with machine-checked contracts.

- `src/` is the verified library:
  - `bit`: the four-state `Bit` and its logic operators;
  - `value`: the mathematical model of a four-state integer (a bit sequence,
    least-significant first) and the laws proved about it;
  - `svint`, `owned`: the immutable `SVInt` snapshot and the mutable
    `OwnedSVInt` with its bitwise, range, fill, sign, shrink, concatenation
    and conditional operations;
  - `literal`: number-literal digits and the bits they spell;
  - `constant`: structured constant values;
  - `diagnostic`: diagnostics, their text, rendering with `ariadne`, and the
    assembly of a diagnostic list;
  - `ast`, `driver`, `dataflow`, `syntax`, `error`: options, flags, kinds and
    the error type.
- `app/` adds what the standard traits and `miette` need: displayable copies
  of the diagnostic and error types and the `f64` reading of a real constant.
- `tests/` exercises the library on concrete values.

What this crate does not contain: the handles that drive the SystemVerilog
compiler itself (sessions, compilations, designs, symbols, types,
expressions, statements, analyses, the command-line driver, source loading,
syntax trees and their visitors, dataflow runs and scripts). Those are
calls into the compiler's C++ library, which is not part of this crate.
The values they produce and the decisions made about them (four-state
integers, constants, diagnostics, options and flags) are here. Integer and
real texts come from that compiler and from float formatting, so
`ConstantValue::to_string_with` takes them as leaf texts.
