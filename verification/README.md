# remc

A compiler for Rem, a small language of `i32` functions, to WebAssembly.

    fn add(a: i32, b: i32) i32 {
        let c = a + b;
        return c;
    }

`src/` is the verified library:

- `lexer` — bytes to tokens (`lex_token`, `token_stream`), with line numbers;
- `grammar` — the grammar as functions on the token stream, down to
  `compile_spec`, the program of a source text or its first error;
- `parser` — `Compiler::build_ast`, proved to give exactly `compile_spec`;
- `symbol_table`, `functions` — the names in scope and the declared functions;
- `scoping` — what every accepted program satisfies: names in scope, calls
  with the right number of arguments, returns of the right type;
- `backend` — WebAssembly text of a program (`wat_program`);
- `toolchain` — text to binary module (`wat`), binary module to native code
  (`wasmtime`);
- `output` — the name of the executable written.

`app/main.rs` is the command line: it reads the `.rem` file, prints errors,
writes the `.wat`, `.wasm` and executable files, and can run the result.
