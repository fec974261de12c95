# tiny_wasm

A small WebAssembly runtime, verified with Verus.

- `src/binary/`: the binary format. `module.rs` decodes a module (preamble, version, and the
  type, function and code sections) from bytes; every parser is stated as a function on byte
  sequences (`spec_decode` and its parts) and the executable decoder is proved to give exactly
  what it gives. LEB128 numbers are read with `nom_leb128`, behind one trusted function whose
  contract states that crate's behaviour.
- `src/execution/`: the store of function instances built from a module, and the interpreter
  for `local.get`, `i32.add` and `end`. `spec_execute`, `spec_invoke` and `spec_call` state what a
  run does; `properties.rs` proves properties of calls.
- `tests/`: decoding of modules written in the text format (through the `wat` crate), and calls.
