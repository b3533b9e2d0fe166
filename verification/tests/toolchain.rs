use remc::backend::Backend;
use remc::parser::Compiler;
use remc::toolchain::{assemble, precompile, BuildError};

fn wat_of(src: &str) -> String {
    let mut c = Compiler::new(src.to_string());
    c.build_ast().unwrap();
    let mut b = Backend::new(c.into_program());
    b.compile_program();
    b.into_wat()
}

#[test]
fn assemble_gives_a_binary_module() {
    let wat = wat_of("fn add(a: i32, b: i32) i32 { return a + b; }");
    let wasm = assemble(&wat).ok().unwrap();
    assert_eq!(&wasm[0..4], b"\0asm");
    assert_ne!(wasm, wat.as_bytes().to_vec());
}

#[test]
fn assemble_refuses_bad_text() {
    let r = assemble(&"(module (func $f) (func $f))".to_string());
    assert!(matches!(r, Err(BuildError::Wat(_))));
}

#[test]
fn assemble_refuses_duplicate_functions() {
    let wat = wat_of("fn f() { return; } fn f() { return; }");
    assert!(matches!(assemble(&wat), Err(BuildError::Wat(_))));
}

#[test]
fn precompile_a_valid_module() {
    let wat = wat_of("fn main() i32 { let x = 6; return x * 7; }");
    let wasm = assemble(&wat).ok().unwrap();
    let native = precompile(&wasm).ok().unwrap();
    assert!(!native.is_empty());
}

#[test]
fn precompile_refuses_an_invalid_module() {
    let wat = wat_of("fn f() i32 { let x = 1; }");
    let wasm = assemble(&wat).ok().unwrap();
    assert!(matches!(precompile(&wasm), Err(BuildError::Compile(_))));
}

#[test]
fn precompile_refuses_bytes_without_the_magic_number() {
    assert!(matches!(precompile(&[]), Err(BuildError::Compile(_))));
    assert!(matches!(precompile(b"(module)"), Err(BuildError::Compile(_))));
}
