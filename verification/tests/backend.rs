use remc::ast::{ASTExpr, ASTFuncDef, ASTNode, ASTReturnStmt, ASTStmt, ASTType, BinaryOp};
use remc::backend::Backend;
use remc::parser::Compiler;

fn wat_of(src: &str) -> String {
    let mut c = Compiler::new(src.to_string());
    c.build_ast().unwrap();
    let mut b = Backend::new(c.into_program());
    b.compile_program();
    b.into_wat()
}

#[test]
fn empty_module() {
    assert_eq!(wat_of(""), "(module\n)\n");
}

#[test]
fn add_function_text() {
    assert_eq!(
        wat_of("fn add(a: i32, b: i32) i32 { let c = a + b; return c; }"),
        "(module\n\t(func $add (export \"add\") (param $a i32) (param $b i32)(result i32)\n\t\t(local $c i32)\n\t\tlocal.get $a\n\t\tlocal.get $b\n\t\ti32.add\n\t\tlocal.set $c\n\t\tlocal.get $c\n\t\treturn\n\t)\n)\n"
    );
}

#[test]
fn locals_declared_once_in_first_order() {
    assert_eq!(
        wat_of("fn f() { let b = 1; let a = 2; let b = 3; a = 0; return; }")
            .lines()
            .filter(|l| l.contains("(local "))
            .collect::<Vec<_>>(),
        vec!["\t\t(local $b i32)", "\t\t(local $a i32)"]
    );
}

#[test]
fn operators_and_calls() {
    assert_eq!(
        wat_of("fn g(x: i32) i32 { return x / 2 - g(x * 3); }\nfn h() { return; }"),
        "(module\n\t(func $g (export \"g\") (param $x i32)(result i32)\n\t\tlocal.get $x\n\t\ti32.const 2\n\t\ti32.div_s\n\t\tlocal.get $x\n\t\ti32.const 3\n\t\ti32.mul\n\t\tcall $g\n\t\ti32.sub\n\t\treturn\n\t)\n\t(func $h (export \"h\")\n\t\treturn\n\t)\n)\n"
    );
}

#[test]
fn large_and_small_literals() {
    let text = wat_of("fn f() i32 { let a = 2147483647; return 0 - 2147483647 - 1; }");
    assert!(text.contains("\t\ti32.const 2147483647\n\t\tlocal.set $a\n"));
    assert!(text.contains("\t\ti32.const 0\n\t\ti32.const 2147483647\n\t\ti32.sub\n\t\ti32.const 1\n\t\ti32.sub\n"));
}

#[test]
fn assignment_text() {
    let text = wat_of("fn f(p: i32) { p = p + 1; }");
    assert!(text.contains("\t\tlocal.get $p\n\t\ti32.const 1\n\t\ti32.add\n\t\tlocal.set $p\n\t)\n"));
}

#[test]
fn negative_literals_in_text() {
    let body = vec![ASTStmt::ReturnStmt(ASTReturnStmt {
        value: ASTExpr::Binary(
            Box::new(ASTExpr::Int(-2147483648)),
            BinaryOp::Div,
            Box::new(ASTExpr::Int(-7)),
        ),
        function_ret_type: ASTType::I32,
    })];
    let f = ASTFuncDef { name: "n".to_string(), params: vec![], return_type: ASTType::I32, body };
    let mut b = Backend::new(vec![ASTNode::FuncDef(f)]);
    b.compile_program();
    let text = b.into_wat();
    assert!(text.contains(
        "\t\ti32.const -2147483648\n\t\ti32.const -7\n\t\ti32.div_s\n\t\treturn\n"
    ));
}
