# bindgen

Writes bindings for C headers: types, enumerations and functions, as text.

- `src/` is the library. `clang` holds a parsed header as plain values, `ctx` the
  state of a run, `types`, `decls` and `visit` turn types, definitions and cursors
  into text, `bindings` writes the whole, and `args` reads the command line. Each
  function states what it does as a function from state to state, and Verus proves
  it. `growth`, `coverage`, `origin` and `laws` prove what holds of every run: nothing
  that was written is taken back, made-up names differ, each symbol is defined once,
  every definition and function that the walk reaches is bound to, and each symbol is
  that of a cursor in a file that matches.
- `app/` is the program: it asks libclang for the header, opens files and prints.
- `tests/` runs the library on headers that are built by hand.
