//! From WebAssembly text to a binary module, and from a binary module to
//! code that this machine runs.
use vstd::prelude::*;

verus! {

#[verifier::external_type_specification]
#[verifier::external_body]
pub struct ExWatError(wat::Error);

#[verifier::external_type_specification]
#[verifier::external_body]
pub struct ExWasmtimeError(wasmtime::Error);

#[verifier::external_type_specification]
#[verifier::external_body]
pub struct ExEngine(wasmtime::Engine);

#[verifier::external_type_specification]
#[verifier::external_body]
pub struct ExModule(wasmtime::Module);

#[verifier::external_type_specification]
#[verifier::external_body]
pub struct ExConfig(wasmtime::Config);

/// The binary encoding of a WebAssembly text module, or `None` where the
/// text is not one.
pub uninterp spec fn wat_binary(text: Seq<char>) -> Option<Seq<u8>>;

/// `wat::parse_str`: parses WebAssembly text and encodes it as a binary
/// module. Built without its `component-model` feature, the parser looks at
/// no environment variable; the one thing it keeps between calls, a counter
/// for names it makes up, never reaches the bytes. So the encoding depends
/// on the text alone; it is named, not described.
#[verifier::external_body]
fn parse_wat(text: &str) -> (r: Result<Vec<u8>, wat::Error>)
    ensures
        r matches Ok(b) ==> wat_binary(text@) == Some(b@),
        r is Err ==> wat_binary(text@) is None,
{
    wat::parse_str(text)
}

/// `wasmtime::Config::default`: the default engine configuration, which
/// detects the host's features when an engine is made. Nothing about it is
/// stated.
#[verifier::external_body]
fn default_config() -> wasmtime::Config {
    wasmtime::Config::default()
}

/// `wasmtime::Engine::new`: a compilation engine for `config`, or the error
/// that the configuration does not fit this machine. Nothing about the
/// outcome is stated.
#[verifier::external_body]
fn new_engine(config: &wasmtime::Config) -> (r: Result<wasmtime::Engine, wasmtime::Error>) {
    wasmtime::Engine::new(config)
}

/// Whether `b` starts with the magic number `\0asm` of a WebAssembly binary.
pub open spec fn has_wasm_magic(b: Seq<u8>) -> bool {
    b.len() >= 4 && b[0] == 0 && b[1] == 0x61 && b[2] == 0x73 && b[3] == 0x6d
}

/// `wasmtime::Module::new`: decodes, validates and compiles a module to code
/// for this machine. The one thing stated is what its documentation says of
/// input that cannot be decoded: it is refused; and input without the magic
/// number cannot be decoded (the decoder reads the magic number first and
/// fails without it, and with the `wat` feature off, as here, no input is
/// read as text). Otherwise the outcome depends on the machine and is not
/// stated.
#[verifier::external_body]
fn new_module(engine: &wasmtime::Engine, wasm: &[u8]) -> (r: Result<
    wasmtime::Module,
    wasmtime::Error,
>)
    ensures
        !has_wasm_magic(wasm@) ==> r is Err,
{
    wasmtime::Module::new(engine, wasm)
}

/// Whether `b` starts with the magic number `\x7fELF` of an ELF object.
pub open spec fn has_elf_magic(b: Seq<u8>) -> bool {
    b.len() >= 4 && b[0] == 0x7f && b[1] == 0x45 && b[2] == 0x4c && b[3] == 0x46
}

/// `wasmtime::Module::serialize`: the compiled code of a module as bytes
/// that the runtime can load again. The one thing stated is their format:
/// they are the ELF image of the compiled module, which the runtime parsed
/// as an ELF header, magic number first, when it made the module's code
/// memory, and which it hands back as it holds it. The code inside depends
/// on the machine and is not stated.
#[verifier::external_body]
fn serialize_module(module: &wasmtime::Module) -> (r: Result<Vec<u8>, wasmtime::Error>)
    ensures
        r matches Ok(b) ==> has_elf_magic(b@),
{
    module.serialize()
}

/// Why a WebAssembly module could not be built: the text was refused, the
/// binary did not compile, or the compiled code could not be written out.
pub enum BuildError {
    Wat(wat::Error),
    Compile(wasmtime::Error),
    Serialize(wasmtime::Error),
}

/// Encodes WebAssembly text as a binary module: the encoding `wat_binary`
/// names, or a `Wat` error exactly where the text is no module.
pub fn assemble(wat: &String) -> (r: Result<Vec<u8>, BuildError>)
    ensures
        match wat_binary(wat@) {
            Some(b) => r matches Ok(v) && v@ == b,
            None => r matches Err(e) && e is Wat,
        },
{
    match parse_wat(wat.as_str()) {
        Ok(bytes) => Ok(bytes),
        Err(e) => Err(BuildError::Wat(e)),
    }
}

/// Compiles a binary module to code for this machine with an engine of the
/// default configuration and serialises that code. What comes out depends
/// on the machine; a failure is a `Compile` error (no engine for this
/// machine, or a module that does not validate or compile) or a
/// `Serialize` error. Bytes without the magic number of a WebAssembly
/// binary always fail with a `Compile` error. What a success gives is the
/// ELF image of the compiled code, never the input handed back.
pub fn precompile(wasm: &[u8]) -> (r: Result<Vec<u8>, BuildError>)
    ensures
        r matches Err(e) ==> e is Compile || e is Serialize,
        !has_wasm_magic(wasm@) ==> (r matches Err(e) && e is Compile),
        r matches Ok(b) ==> has_elf_magic(b@) && b@ != wasm@,
{
    let config = default_config();
    let engine = match new_engine(&config) {
        Ok(engine) => engine,
        Err(e) => {
            return Err(BuildError::Compile(e));
        },
    };
    let module = match new_module(&engine, wasm) {
        Ok(m) => m,
        Err(e) => {
            return Err(BuildError::Compile(e));
        },
    };
    match serialize_module(&module) {
        Ok(bytes) => Ok(bytes),
        Err(e) => Err(BuildError::Serialize(e)),
    }
}

} // verus!
