use remc::ast::ASTNode;
use remc::error::{CompileError, CompileErrorOf, ErrorKindOf};
use remc::parser::Compiler;
use remc::token::TokenOf;

fn compile(src: &str) -> Result<Vec<ASTNode>, CompileError> {
    let mut c = Compiler::new(src.to_string());
    c.build_ast()?;
    Ok(c.into_program())
}

fn body_of(src: &str) -> String {
    format!("{:?}", compile(src).unwrap())
}

fn err(line: usize, kind: ErrorKindOf<String>) -> Result<Vec<ASTNode>, CompileError> {
    Err(CompileErrorOf { line, kind })
}

fn check_err(src: &str, line: usize, kind: ErrorKindOf<String>) {
    let got = compile(src).map(|p| format!("{:?}", p));
    let want = err(line, kind).map(|p| format!("{:?}", p));
    assert_eq!(got, want);
}

fn ident(s: &str) -> TokenOf<String> {
    TokenOf::Ident(s.to_string())
}

#[test]
fn empty_program() {
    assert_eq!(body_of(""), "[]");
}

#[test]
fn add_function() {
    let p = body_of("fn add(a: i32, b: i32) i32 {\n  let c = a + b;\n  return c;\n}\n");
    assert_eq!(
        p,
        "[FuncDef(ASTFuncDef { name: \"add\", params: [ASTParam { name: \"a\", data_type: I32 }, \
         ASTParam { name: \"b\", data_type: I32 }], return_type: I32, body: [LetStmt(ASTLetStmt { \
         var_name: \"c\", value: Binary(Variable(\"a\"), Add, Variable(\"b\")) }), \
         ReturnStmt(ASTReturnStmt { value: Variable(\"c\"), function_ret_type: I32 })] })]"
    );
}

#[test]
fn subtraction_groups_to_the_left() {
    let p = body_of("fn f() i32 { return 1 - 2 - 3; }");
    assert!(p.contains("Binary(Binary(Int(1), Sub, Int(2)), Sub, Int(3))"));
}

#[test]
fn product_binds_tighter_than_sum() {
    let p = body_of("fn f() i32 { return 1 + 2 * 3; }");
    assert!(p.contains("Binary(Int(1), Add, Binary(Int(2), Mul, Int(3)))"));
    let q = body_of("fn f() i32 { return 1 * 2 + 3; }");
    assert!(q.contains("Binary(Binary(Int(1), Mul, Int(2)), Add, Int(3))"));
}

#[test]
fn parentheses_group() {
    let p = body_of("fn f() i32 { return (1 + 2) * 3 / 4; }");
    assert!(p.contains("Binary(Binary(Binary(Int(1), Add, Int(2)), Mul, Int(3)), Div, Int(4))"));
}

#[test]
fn calls_with_arguments_and_recursion() {
    let p = body_of(
        "fn g(x: i32) i32 { return g(x - 1); }\nfn main() i32 { return g(1) + g(2 * 3); }",
    );
    assert!(p.contains("Call(\"g\", [Binary(Variable(\"x\"), Sub, Int(1))])"));
    assert!(p.contains("Call(\"g\", [Binary(Int(2), Mul, Int(3))])"));
}

#[test]
fn call_without_arguments() {
    let p = body_of("fn z() i32 { return 0; } fn m() i32 { let a = z(); return a; }");
    assert!(p.contains("Call(\"z\", [])"));
}

#[test]
fn void_function_and_default_return_type() {
    let p = body_of("fn v() { return; } fn w() void { let a = 1; a = a + 1; }");
    assert!(p.contains("return_type: Void, body: [ReturnStmt(ASTReturnStmt { value: Int(0), function_ret_type: Void })]"));
    assert!(p.contains("AssignmentStmt(ASTAssignmentStmt { var_name: \"a\", value: Binary(Variable(\"a\"), Add, Int(1)) })"));
}

#[test]
fn redeclared_let_is_accepted() {
    let p = body_of("fn f() { let a = 1; let a = 2; }");
    assert!(p.contains("var_name: \"a\", value: Int(2)"));
}

#[test]
fn error_unexpected_global() {
    check_err("let x = 1;", 1, ErrorKindOf::UnexpectedGlobal(TokenOf::Let));
}

#[test]
fn error_function_name() {
    check_err("fn (", 1, ErrorKindOf::ExpectedFunctionName(TokenOf::OpenParen));
}

#[test]
fn error_open_paren() {
    check_err("fn f {", 1, ErrorKindOf::ExpectedOpenParen(TokenOf::OpenCurly));
}

#[test]
fn error_param_name() {
    check_err("fn f(1", 1, ErrorKindOf::ExpectedParamName(TokenOf::Int(1)));
}

#[test]
fn error_colon() {
    check_err("fn f(a i32)", 1, ErrorKindOf::ExpectedColon(ident("i32")));
}

#[test]
fn error_param_type() {
    check_err("fn f(a: void)", 1, ErrorKindOf::UnknownParamType("void".to_string()));
    check_err("fn f(a: 3)", 1, ErrorKindOf::ExpectedParamType(TokenOf::Int(3)));
}

#[test]
fn error_param_separator() {
    check_err("fn f(a: i32;", 1, ErrorKindOf::ExpectedParamSeparator(TokenOf::Semicolon));
}

#[test]
fn error_return_type() {
    check_err("fn f() u8 {}", 1, ErrorKindOf::UnknownReturnType("u8".to_string()));
}

#[test]
fn error_open_curly() {
    check_err("fn f() i32 ;", 1, ErrorKindOf::ExpectedOpenCurly(TokenOf::Semicolon));
}

#[test]
fn error_unknown_statement() {
    check_err("fn f() {\n 3; }", 2, ErrorKindOf::UnknownStatement(TokenOf::Int(3)));
    check_err("fn f() {", 1, ErrorKindOf::UnknownStatement(TokenOf::EOF));
}

#[test]
fn error_assignment_target() {
    check_err("fn f() { y = 1; }", 1, ErrorKindOf::UndeclaredAssignTarget("y".to_string()));
}

#[test]
fn error_semicolon() {
    check_err("fn f() { let a = 1 }", 1, ErrorKindOf::ExpectedSemicolon(TokenOf::CloseCurly));
}

#[test]
fn error_assignment_equals() {
    check_err("fn f(a: i32) { a 1; }", 1, ErrorKindOf::ExpectedAssignEquals(TokenOf::Int(1)));
}

#[test]
fn error_empty_return() {
    check_err("fn f() { return 1; }", 1, ErrorKindOf::ExpectedEmptyReturn(TokenOf::Int(1)));
}

#[test]
fn error_variable_name() {
    check_err("fn f() { let 1 = 2; }", 1, ErrorKindOf::ExpectedVariableName(TokenOf::Int(1)));
}

#[test]
fn error_let_equals() {
    check_err("fn f() { let a 2; }", 1, ErrorKindOf::ExpectedLetEquals(TokenOf::Int(2)));
}

#[test]
fn error_argument_separator() {
    check_err(
        "fn g(a: i32, b: i32) i32 { return g(a b); }",
        1,
        ErrorKindOf::ExpectedArgSeparator(ident("b")),
    );
}

#[test]
fn error_arity() {
    check_err(
        "fn g(a: i32) i32 { return a; }\nfn h() i32 {\n return g(1, 2); }",
        3,
        ErrorKindOf::ArityMismatch("g".to_string(), 1, 2),
    );
}

#[test]
fn error_undeclared_function() {
    check_err("fn h() i32 { return k(); }", 1, ErrorKindOf::UndeclaredFunction("k".to_string()));
}

#[test]
fn error_later_function_is_undeclared() {
    check_err(
        "fn h() i32 { return k(); } fn k() i32 { return 1; }",
        1,
        ErrorKindOf::UndeclaredFunction("k".to_string()),
    );
}

#[test]
fn error_undeclared_identifier() {
    check_err("fn h() i32 { return q; }", 1, ErrorKindOf::UndeclaredIdentifier("q".to_string()));
    check_err("fn h() { let x = x; }", 1, ErrorKindOf::UndeclaredIdentifier("x".to_string()));
}

#[test]
fn error_scope_ends_with_function() {
    check_err(
        "fn a(p: i32) { let q = p; }\nfn b() { let r = q; }",
        2,
        ErrorKindOf::UndeclaredIdentifier("q".to_string()),
    );
}

#[test]
fn error_close_paren() {
    check_err("fn h() i32 { return (1 + 2; }", 1, ErrorKindOf::ExpectedCloseParen);
}

#[test]
fn error_expression() {
    check_err("fn h() i32 { return ; }", 1, ErrorKindOf::ExpectedExpression(TokenOf::Semicolon));
}

#[test]
fn lexing_error_comes_when_reached() {
    check_err("fn f() {\n let a = 1 # 2; }", 2, ErrorKindOf::UnknownCharacter(b'#'));
    check_err("let # x", 1, ErrorKindOf::UnexpectedGlobal(TokenOf::Let));
    check_err("fn f() i32 { return 99999999999; }", 1, ErrorKindOf::IntegerOverflow);
}

#[test]
fn two_functions_in_source_order() {
    assert_eq!(
        body_of("fn a() {} fn b() i32 { return 2; }"),
        "[FuncDef(ASTFuncDef { name: \"a\", params: [], return_type: Void, body: [] }), \
         FuncDef(ASTFuncDef { name: \"b\", params: [], return_type: I32, body: \
         [ReturnStmt(ASTReturnStmt { value: Int(2), function_ret_type: I32 })] })]"
    );
}

#[test]
fn expression_at_end_of_source_is_expected() {
    let mut c = Compiler::new("fn f() {\n  return;\n}\n".to_string());
    c.build_ast().unwrap();
    let before = format!("{:?}", c.program());
    let r = c.parse_expr(0).map(|e| format!("{:?}", e));
    assert_eq!(r, Err(CompileErrorOf { line: 4, kind: ErrorKindOf::ExpectedExpression(TokenOf::EOF) }));
    assert_eq!(format!("{:?}", c.program()), before);
}
