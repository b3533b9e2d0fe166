//! The grammar of the language, as functions from a token stream and a
//! position in it to what is parsed there and the position after it.
use vstd::prelude::*;

use crate::ast::{ASTType, BinaryOp, SExpr, SFunc, SParam, SStmt};
use crate::error::{CompileErrorOf, ErrorKindOf, SCompileError, SErrorKind};
use crate::lexer::{token_stream, LexStepOf, SLexStep};
use crate::token::{precedence, SToken, TokenOf};

verus! {

/// Variables in scope, with their types.
pub type Scope = Map<Seq<char>, ASTType>;

/// Functions declared so far, with their number of parameters.
pub type Signatures = Map<Seq<char>, nat>;

/// The token at position `i` (a failure reads as `EOF`; the parser never
/// stands on one).
pub open spec fn tok_at(ts: Seq<SLexStep>, i: int) -> SToken {
    match ts[i] {
        LexStepOf::Token(t, _) => t,
        LexStepOf::Failure(_) => TokenOf::EOF,
    }
}

/// The line of the token at position `i`.
pub open spec fn line_at(ts: Seq<SLexStep>, i: int) -> usize {
    match ts[i] {
        LexStepOf::Token(_, l) => l,
        LexStepOf::Failure(e) => e.line,
    }
}

/// An error of kind `kind` reported while standing at position `i`.
pub open spec fn err_at(ts: Seq<SLexStep>, i: int, kind: SErrorKind) -> SCompileError {
    CompileErrorOf { line: line_at(ts, i), kind }
}

/// Moving past the token at `i`: the next position, or the lexing error
/// that the stream ends with there. The last position is only ever `EOF`,
/// which the parser never moves past.
pub open spec fn advance(ts: Seq<SLexStep>, i: int) -> Result<int, SCompileError> {
    if 0 <= i && i + 1 < ts.len() {
        match ts[i + 1] {
            LexStepOf::Failure(e) => Err(e),
            LexStepOf::Token(_, _) => Ok(i + 1),
        }
    } else {
        Err(err_at(ts, i, ErrorKindOf::UnexpectedGlobal(TokenOf::EOF)))
    }
}

/// The operator of an operator token.
pub open spec fn binop_of(t: SToken) -> BinaryOp {
    match t {
        TokenOf::Plus => BinaryOp::Add,
        TokenOf::Minus => BinaryOp::Sub,
        TokenOf::Asterisk => BinaryOp::Mul,
        _ => BinaryOp::Div,
    }
}

pub open spec fn i32_name() -> Seq<char> {
    seq!['i', '3', '2']
}

pub open spec fn void_name() -> Seq<char> {
    seq!['v', 'o', 'i', 'd']
}

/// Declaring `name`: a name already in scope keeps its type.
pub open spec fn declare(vars: Scope, name: Seq<char>, ty: ASTType) -> Scope {
    if vars.contains_key(name) {
        vars
    } else {
        vars.insert(name, ty)
    }
}

/// An expression whose operators all bind tighter than `minp`, by
/// precedence climbing: a primary expression, then operators of higher
/// precedence, each with its right operand, grouping to the left.
pub open spec fn p_expr(ts: Seq<SLexStep>, i: int, minp: u32, vars: Scope, funcs: Signatures) -> Result<
    (SExpr, int),
    SCompileError,
>
    decreases ts.len() - i, 2nat,
{
    match p_primary(ts, i, vars, funcs) {
        Err(e) => Err(e),
        Ok((left, j)) => {
            if i < j <= ts.len() {
                p_loop(ts, j, minp, left, vars, funcs)
            } else {
                Ok((left, j))
            }
        },
    }
}

/// Extends `left` with the operators at `j` that bind tighter than `minp`.
pub open spec fn p_loop(
    ts: Seq<SLexStep>,
    j: int,
    minp: u32,
    left: SExpr,
    vars: Scope,
    funcs: Signatures,
) -> Result<(SExpr, int), SCompileError>
    decreases ts.len() - j, 0nat,
{
    let t = tok_at(ts, j);
    let prec = precedence(t);
    if prec == 0 || prec <= minp {
        Ok((left, j))
    } else {
        match advance(ts, j) {
            Err(e) => Err(e),
            Ok(k) => match p_expr(ts, k, prec, vars, funcs) {
                Err(e) => Err(e),
                Ok((right, m)) => {
                    let e = SExpr::Binary(Box::new(left), binop_of(t), Box::new(right));
                    if j < m <= ts.len() {
                        p_loop(ts, m, minp, e, vars, funcs)
                    } else {
                        Ok((e, m))
                    }
                },
            },
        }
    }
}

/// A literal, a variable in scope, a call of a declared function with as
/// many arguments as it has parameters, or a parenthesised expression.
pub open spec fn p_primary(ts: Seq<SLexStep>, i: int, vars: Scope, funcs: Signatures) -> Result<
    (SExpr, int),
    SCompileError,
>
    decreases ts.len() - i, 1nat,
{
    match tok_at(ts, i) {
        TokenOf::Int(v) => match advance(ts, i) {
            Err(e) => Err(e),
            Ok(k) => Ok((SExpr::Int(v), k)),
        },
        TokenOf::Ident(name) => match advance(ts, i) {
            Err(e) => Err(e),
            Ok(k) => {
                if tok_at(ts, k) is OpenParen {
                    p_call(ts, k, name, vars, funcs)
                } else if vars.contains_key(name) {
                    Ok((SExpr::Var(name), k))
                } else {
                    Err(err_at(ts, k, ErrorKindOf::UndeclaredIdentifier(name)))
                }
            },
        },
        TokenOf::OpenParen => match advance(ts, i) {
            Err(e) => Err(e),
            Ok(k) => match p_expr(ts, k, 0, vars, funcs) {
                Err(e) => Err(e),
                Ok((e, m)) => {
                    if !(tok_at(ts, m) is CloseParen) {
                        Err(err_at(ts, m, ErrorKindOf::ExpectedCloseParen))
                    } else {
                        match advance(ts, m) {
                            Err(er) => Err(er),
                            Ok(m2) => Ok((e, m2)),
                        }
                    }
                },
            },
        },
        t => Err(err_at(ts, i, ErrorKindOf::ExpectedExpression(t))),
    }
}

/// A call of the function `name`, from the `(` at `k` past the closing
/// `)`: the callee must be declared and take as many parameters as there
/// are arguments.
pub open spec fn p_call(ts: Seq<SLexStep>, k: int, name: Seq<char>, vars: Scope, funcs: Signatures) -> Result<
    (SExpr, int),
    SCompileError,
>
    decreases ts.len() - k, 1nat,
{
    match advance(ts, k) {
        Err(e) => Err(e),
        Ok(k2) => {
            let args = if tok_at(ts, k2) is CloseParen {
                Ok((Seq::<SExpr>::empty(), k2))
            } else {
                p_args(ts, k2, Seq::empty(), vars, funcs)
            };
            match args {
                Err(e) => Err(e),
                Ok((args, m)) => {
                    if !(tok_at(ts, m) is CloseParen) {
                        Err(err_at(ts, m, ErrorKindOf::ExpectedArgListEnd))
                    } else {
                        match advance(ts, m) {
                            Err(e) => Err(e),
                            Ok(m2) => {
                                if !funcs.contains_key(name) {
                                    Err(
                                        err_at(
                                            ts,
                                            m2,
                                            ErrorKindOf::UndeclaredFunction(name),
                                        ),
                                    )
                                } else if funcs[name] != args.len() {
                                    Err(
                                        err_at(
                                            ts,
                                            m2,
                                            ErrorKindOf::ArityMismatch(
                                                name,
                                                funcs[name] as usize,
                                                args.len() as usize,
                                            ),
                                        ),
                                    )
                                } else {
                                    Ok((SExpr::Call(name, args), m2))
                                }
                            },
                        }
                    }
                },
            }
        },
    }
}

/// Call arguments: expressions separated by commas, up to the `)`, which is
/// not consumed; `acc` holds the arguments read before.
pub open spec fn p_args(
    ts: Seq<SLexStep>,
    i: int,
    acc: Seq<SExpr>,
    vars: Scope,
    funcs: Signatures,
) -> Result<(Seq<SExpr>, int), SCompileError>
    decreases ts.len() - i, 3nat,
{
    match p_expr(ts, i, 0, vars, funcs) {
        Err(e) => Err(e),
        Ok((e, m)) => {
            if tok_at(ts, m) is Comma {
                match advance(ts, m) {
                    Err(er) => Err(er),
                    Ok(m2) => {
                        if i < m2 <= ts.len() {
                            p_args(ts, m2, acc.push(e), vars, funcs)
                        } else {
                            Ok((acc.push(e), m2))
                        }
                    },
                }
            } else if tok_at(ts, m) is CloseParen {
                Ok((acc.push(e), m))
            } else {
                Err(err_at(ts, m, ErrorKindOf::ExpectedArgSeparator(tok_at(ts, m))))
            }
        },
    }
}

/// `let NAME = EXPR`, without the `;`; declares `NAME` after the value is
/// read.
pub open spec fn p_let(ts: Seq<SLexStep>, i: int, vars: Scope, funcs: Signatures) -> Result<
    (SStmt, int, Scope),
    SCompileError,
> {
    match advance(ts, i) {
        Err(e) => Err(e),
        Ok(k) => match tok_at(ts, k) {
            TokenOf::Ident(name) => match advance(ts, k) {
                Err(e) => Err(e),
                Ok(k2) => {
                    if !(tok_at(ts, k2) is Equals) {
                        Err(err_at(ts, k2, ErrorKindOf::ExpectedLetEquals(tok_at(ts, k2))))
                    } else {
                        match advance(ts, k2) {
                            Err(e) => Err(e),
                            Ok(k3) => match p_expr(ts, k3, 0, vars, funcs) {
                                Err(e) => Err(e),
                                Ok((e, m)) => Ok(
                                    (SStmt::Let(name, e), m, declare(vars, name, ASTType::I32)),
                                ),
                            },
                        }
                    }
                },
            },
            t => Err(err_at(ts, k, ErrorKindOf::ExpectedVariableName(t))),
        },
    }
}

/// `return EXPR` in an `i32` function, `return` in a `void` one, without
/// the `;`.
pub open spec fn p_return(
    ts: Seq<SLexStep>,
    i: int,
    rt: ASTType,
    vars: Scope,
    funcs: Signatures,
) -> Result<(SStmt, int), SCompileError> {
    match advance(ts, i) {
        Err(e) => Err(e),
        Ok(k) => match rt {
            ASTType::Void => {
                if tok_at(ts, k) is Semicolon {
                    Ok((SStmt::Return(SExpr::Int(0), ASTType::Void), k))
                } else {
                    Err(err_at(ts, k, ErrorKindOf::ExpectedEmptyReturn(tok_at(ts, k))))
                }
            },
            ASTType::I32 => match p_expr(ts, k, 0, vars, funcs) {
                Err(e) => Err(e),
                Ok((e, m)) => Ok((SStmt::Return(e, ASTType::I32), m)),
            },
        },
    }
}

/// `NAME = EXPR`, without the `;`.
pub open spec fn p_assign(ts: Seq<SLexStep>, i: int, name: Seq<char>, vars: Scope, funcs: Signatures) -> Result<
    (SStmt, int),
    SCompileError,
> {
    match advance(ts, i) {
        Err(e) => Err(e),
        Ok(k) => {
            if !(tok_at(ts, k) is Equals) {
                Err(err_at(ts, k, ErrorKindOf::ExpectedAssignEquals(tok_at(ts, k))))
            } else {
                match advance(ts, k) {
                    Err(e) => Err(e),
                    Ok(k2) => match p_expr(ts, k2, 0, vars, funcs) {
                        Err(e) => Err(e),
                        Ok((e, m)) => Ok((SStmt::Assign(name, e), m)),
                    },
                }
            }
        },
    }
}

/// A statement and its `;`, in a function returning `rt`; the result has
/// the scope after it.
pub open spec fn p_stmt(
    ts: Seq<SLexStep>,
    i: int,
    rt: ASTType,
    vars: Scope,
    funcs: Signatures,
) -> Result<(SStmt, int, Scope), SCompileError> {
    let r: Result<(SStmt, int, Scope), SCompileError> = match tok_at(ts, i) {
        TokenOf::Let => p_let(ts, i, vars, funcs),
        TokenOf::Return => match p_return(ts, i, rt, vars, funcs) {
            Err(e) => Err(e),
            Ok((s, m)) => Ok((s, m, vars)),
        },
        TokenOf::Ident(name) => {
            if !vars.contains_key(name) {
                Err(err_at(ts, i, ErrorKindOf::UndeclaredAssignTarget(name)))
            } else if vars[name] != ASTType::I32 {
                Err(err_at(ts, i, ErrorKindOf::TypeMismatch))
            } else {
                match p_assign(ts, i, name, vars, funcs) {
                    Err(e) => Err(e),
                    Ok((s, m)) => Ok((s, m, vars)),
                }
            }
        },
        t => Err(err_at(ts, i, ErrorKindOf::UnknownStatement(t))),
    };
    match r {
        Err(e) => Err(e),
        Ok((s, m, v)) => {
            if tok_at(ts, m) is Semicolon {
                match advance(ts, m) {
                    Err(e) => Err(e),
                    Ok(m2) => Ok((s, m2, v)),
                }
            } else {
                Err(err_at(ts, m, ErrorKindOf::ExpectedSemicolon(tok_at(ts, m))))
            }
        },
    }
}

/// Statements up to the `}` that closes a function body, which is not
/// consumed.
pub open spec fn p_body(
    ts: Seq<SLexStep>,
    i: int,
    rt: ASTType,
    vars: Scope,
    funcs: Signatures,
    acc: Seq<SStmt>,
) -> Result<(Seq<SStmt>, int, Scope), SCompileError>
    decreases ts.len() - i,
{
    if tok_at(ts, i) is CloseCurly {
        Ok((acc, i, vars))
    } else {
        match p_stmt(ts, i, rt, vars, funcs) {
            Err(e) => Err(e),
            Ok((s, m, v)) => {
                if i < m <= ts.len() {
                    p_body(ts, m, rt, v, funcs, acc.push(s))
                } else {
                    Ok((acc.push(s), m, v))
                }
            },
        }
    }
}

/// Parameters `NAME: i32`, separated by commas, up to the `)`, which is not
/// consumed; each is declared in the scope.
pub open spec fn p_params(ts: Seq<SLexStep>, i: int, acc: Seq<SParam>, vars: Scope) -> Result<
    (Seq<SParam>, int, Scope),
    SCompileError,
>
    decreases ts.len() - i,
{
    match tok_at(ts, i) {
        TokenOf::Ident(pname) => match advance(ts, i) {
            Err(e) => Err(e),
            Ok(k) => {
                if !(tok_at(ts, k) is Colon) {
                    Err(err_at(ts, k, ErrorKindOf::ExpectedColon(tok_at(ts, k))))
                } else {
                    match advance(ts, k) {
                        Err(e) => Err(e),
                        Ok(k2) => match tok_at(ts, k2) {
                            TokenOf::Ident(ty) => {
                                if ty != i32_name() {
                                    Err(err_at(ts, k2, ErrorKindOf::UnknownParamType(ty)))
                                } else {
                                    match advance(ts, k2) {
                                        Err(e) => Err(e),
                                        Ok(k3) => {
                                            let acc2 = acc.push(
                                                SParam { name: pname, data_type: ASTType::I32 },
                                            );
                                            let v2 = declare(vars, pname, ASTType::I32);
                                            if tok_at(ts, k3) is Comma {
                                                match advance(ts, k3) {
                                                    Err(e) => Err(e),
                                                    Ok(k4) => p_params(ts, k4, acc2, v2),
                                                }
                                            } else if tok_at(ts, k3) is CloseParen {
                                                Ok((acc2, k3, v2))
                                            } else {
                                                Err(
                                                    err_at(
                                                        ts,
                                                        k3,
                                                        ErrorKindOf::ExpectedParamSeparator(
                                                            tok_at(ts, k3),
                                                        ),
                                                    ),
                                                )
                                            }
                                        },
                                    }
                                }
                            },
                            t => Err(err_at(ts, k2, ErrorKindOf::ExpectedParamType(t))),
                        },
                    }
                }
            },
        },
        t => Err(err_at(ts, i, ErrorKindOf::ExpectedParamName(t))),
    }
}

/// The return type after the parameter list: `i32` or `void`, or, when no
/// name follows, `void`.
pub open spec fn p_ret_type(ts: Seq<SLexStep>, i: int) -> Result<(ASTType, int), SCompileError> {
    match tok_at(ts, i) {
        TokenOf::Ident(rt) => {
            if rt == i32_name() {
                match advance(ts, i) {
                    Err(e) => Err(e),
                    Ok(k) => Ok((ASTType::I32, k)),
                }
            } else if rt == void_name() {
                match advance(ts, i) {
                    Err(e) => Err(e),
                    Ok(k) => Ok((ASTType::Void, k)),
                }
            } else {
                Err(err_at(ts, i, ErrorKindOf::UnknownReturnType(rt)))
            }
        },
        _ => Ok((ASTType::Void, i)),
    }
}

/// `fn NAME(PARAMS) TYPE { BODY }` from the `fn` at `i` to the closing `}`,
/// which is not consumed. The function is declared, with its number of
/// parameters, before its return type is read, so that its body may call
/// it. The result has the scope at the end of the body and the functions
/// declared after it.
#[verifier::opaque]
pub open spec fn p_fn_def(ts: Seq<SLexStep>, i: int, funcs: Signatures) -> Result<
    (SFunc, int, Scope, Signatures),
    SCompileError,
> {
    match advance(ts, i) {
        Err(e) => Err(e),
        Ok(k) => match tok_at(ts, k) {
            TokenOf::Ident(name) => match advance(ts, k) {
                Err(e) => Err(e),
                Ok(k2) => {
                    if !(tok_at(ts, k2) is OpenParen) {
                        Err(err_at(ts, k2, ErrorKindOf::ExpectedOpenParen(tok_at(ts, k2))))
                    } else {
                        match advance(ts, k2) {
                            Err(e) => Err(e),
                            Ok(k3) => {
                                let pr = if tok_at(ts, k3) is CloseParen {
                                    Ok((Seq::<SParam>::empty(), k3, Map::<Seq<char>, ASTType>::empty()))
                                } else {
                                    p_params(ts, k3, Seq::empty(), Map::empty())
                                };
                                match pr {
                                    Err(e) => Err(e),
                                    Ok((params, m, vars)) => p_fn_rest(ts, m, name, params, vars, funcs),
                                }
                            },
                        }
                    }
                },
            },
            t => Err(err_at(ts, k, ErrorKindOf::ExpectedFunctionName(t))),
        },
    }
}

/// The part of a function definition from the `)` after its parameters.
pub open spec fn p_fn_rest(
    ts: Seq<SLexStep>,
    m: int,
    name: Seq<char>,
    params: Seq<SParam>,
    vars: Scope,
    funcs: Signatures,
) -> Result<(SFunc, int, Scope, Signatures), SCompileError> {
    if !(tok_at(ts, m) is CloseParen) {
        Err(err_at(ts, m, ErrorKindOf::ExpectedParamListEnd(tok_at(ts, m))))
    } else {
        match advance(ts, m) {
            Err(e) => Err(e),
            Ok(m2) => {
                let funcs2 = funcs.insert(name, params.len());
                match p_ret_type(ts, m2) {
                    Err(e) => Err(e),
                    Ok((rt, m3)) => {
                        if !(tok_at(ts, m3) is OpenCurly) {
                            Err(err_at(ts, m3, ErrorKindOf::ExpectedOpenCurly(tok_at(ts, m3))))
                        } else {
                            match advance(ts, m3) {
                                Err(e) => Err(e),
                                Ok(m4) => match p_body(ts, m4, rt, vars, funcs2, Seq::empty()) {
                                    Err(e) => Err(e),
                                    Ok((body, m5, vars2)) => Ok(
                                        (
                                            SFunc { name, params, return_type: rt, body },
                                            m5,
                                            vars2,
                                            funcs2,
                                        ),
                                    ),
                                },
                            }
                        }
                    },
                }
            },
        }
    }
}

/// Function definitions up to `EOF`; `prog` holds those read before.
pub open spec fn p_program(ts: Seq<SLexStep>, i: int, funcs: Signatures, prog: Seq<SFunc>) -> Result<
    Seq<SFunc>,
    SCompileError,
>
    decreases ts.len() - i,
{
    match tok_at(ts, i) {
        TokenOf::EOF => Ok(prog),
        TokenOf::Fn => match p_fn_def(ts, i, funcs) {
            Err(e) => Err(e),
            Ok((f, m, _, funcs2)) => match advance(ts, m) {
                Err(e) => Err(e),
                Ok(m2) => {
                    if i < m2 <= ts.len() {
                        p_program(ts, m2, funcs2, prog.push(f))
                    } else {
                        Ok(prog.push(f))
                    }
                },
            },
        },
        t => Err(err_at(ts, i, ErrorKindOf::UnexpectedGlobal(t))),
    }
}

/// The program of a token stream, or the first error met.
pub open spec fn parse_stream(ts: Seq<SLexStep>) -> Result<Seq<SFunc>, SCompileError> {
    if ts.len() == 0 {
        Ok(Seq::empty())
    } else {
        match ts[0] {
            LexStepOf::Failure(e) => Err(e),
            LexStepOf::Token(_, _) => p_program(ts, 0, Map::empty(), Seq::empty()),
        }
    }
}

/// The program of a source text, or the first error met in it.
pub open spec fn compile_spec(src: Seq<u8>) -> Result<Seq<SFunc>, SCompileError> {
    parse_stream(token_stream(src, 0, 1))
}

/// The name `void` after the `)` of a parameter list makes a function that
/// returns nothing: whatever follows, a definition read from there has
/// return type `Void`. And `void { return; }` there is a whole definition,
/// which declares the function and whose body is one empty return.
pub proof fn law_void_return_type(
    ts: Seq<SLexStep>,
    m: int,
    name: Seq<char>,
    params: Seq<SParam>,
    vars: Scope,
    funcs: Signatures,
)
    requires
        0 <= m,
        m + 1 < ts.len(),
        tok_at(ts, m) is CloseParen,
        ts[m + 1] matches LexStepOf::Token(t, _) && t == TokenOf::<Seq<char>>::Ident(
            seq!['v', 'o', 'i', 'd'],
        ),
    ensures
        p_fn_rest(ts, m, name, params, vars, funcs) matches Ok((f, _, _, _))
            ==> f.return_type == ASTType::Void,
        ({
            &&& m + 5 < ts.len()
            &&& ts[m + 2] is Token && tok_at(ts, m + 2) is OpenCurly
            &&& ts[m + 3] is Token && tok_at(ts, m + 3) is Return
            &&& ts[m + 4] is Token && tok_at(ts, m + 4) is Semicolon
            &&& ts[m + 5] is Token && tok_at(ts, m + 5) is CloseCurly
        }) ==> p_fn_rest(ts, m, name, params, vars, funcs) == Ok::<
            (SFunc, int, Scope, Signatures),
            SCompileError,
        >(
            (
                SFunc {
                    name,
                    params,
                    return_type: ASTType::Void,
                    body: seq![SStmt::Return(SExpr::Int(0), ASTType::Void)],
                },
                m + 5,
                vars,
                funcs.insert(name, params.len()),
            ),
        ),
{
    assert(seq!['v', 'o', 'i', 'd'] =~= void_name());
    assert(seq!['v', 'o', 'i', 'd'] != i32_name()) by {
        assert(void_name()[0] != i32_name()[0]);
    }
    if m + 5 < ts.len() && ts[m + 2] is Token && tok_at(ts, m + 2) is OpenCurly && ts[m + 3] is Token
        && tok_at(ts, m + 3) is Return && ts[m + 4] is Token && tok_at(ts, m + 4) is Semicolon
        && ts[m + 5] is Token && tok_at(ts, m + 5) is CloseCurly {
        let funcs2 = funcs.insert(name, params.len());
        let ret = SStmt::Return(SExpr::Int(0), ASTType::Void);
        assert(p_return(ts, m + 3, ASTType::Void, vars, funcs2) == Ok::<(SStmt, int), SCompileError>(
            (ret, m + 4),
        ));
        assert(p_stmt(ts, m + 3, ASTType::Void, vars, funcs2) == Ok::<
            (SStmt, int, Scope),
            SCompileError,
        >((ret, m + 5, vars)));
        assert(p_body(ts, m + 5, ASTType::Void, vars, funcs2, seq![ret]) == Ok::<
            (Seq<SStmt>, int, Scope),
            SCompileError,
        >((seq![ret], m + 5, vars)));
        assert(Seq::<SStmt>::empty().push(ret) =~= seq![ret]);
        assert(p_body(ts, m + 3, ASTType::Void, vars, funcs2, Seq::empty()) == Ok::<
            (Seq<SStmt>, int, Scope),
            SCompileError,
        >((seq![ret], m + 5, vars)));
    }
}

/// Operators that bind equally group to the left: where primary
/// expressions `x`, `y` and `z` stand between two operators of one
/// precedence and nothing binds after `z`, the expression read from `x` is
/// `(x o1 y) o2 z`, and it ends after `z`.
pub proof fn law_left_grouping(
    ts: Seq<SLexStep>,
    i: int,
    vars: Scope,
    funcs: Signatures,
    x: SExpr,
    j: int,
    y: SExpr,
    k: int,
    z: SExpr,
    m: int,
)
    requires
        p_primary(ts, i, vars, funcs) == Ok::<(SExpr, int), SCompileError>((x, j)),
        p_primary(ts, j + 1, vars, funcs) == Ok::<(SExpr, int), SCompileError>((y, k)),
        p_primary(ts, k + 1, vars, funcs) == Ok::<(SExpr, int), SCompileError>((z, m)),
        0 <= i < j,
        j + 1 < k,
        k + 1 < m < ts.len(),
        ts[j + 1] is Token,
        ts[k + 1] is Token,
        precedence(tok_at(ts, j)) > 0,
        precedence(tok_at(ts, k)) == precedence(tok_at(ts, j)),
        precedence(tok_at(ts, m)) == 0,
    ensures
        p_expr(ts, i, 0, vars, funcs) == Ok::<(SExpr, int), SCompileError>(
            (
                SExpr::Binary(
                    Box::new(SExpr::Binary(Box::new(x), binop_of(tok_at(ts, j)), Box::new(y))),
                    binop_of(tok_at(ts, k)),
                    Box::new(z),
                ),
                m,
            ),
        ),
{
    let p = precedence(tok_at(ts, j));
    let xy = SExpr::Binary(Box::new(x), binop_of(tok_at(ts, j)), Box::new(y));
    let xyz = SExpr::Binary(Box::new(xy), binop_of(tok_at(ts, k)), Box::new(z));
    assert(p_loop(ts, k, p, y, vars, funcs) == Ok::<(SExpr, int), SCompileError>((y, k)));
    assert(p_expr(ts, j + 1, p, vars, funcs) == Ok::<(SExpr, int), SCompileError>((y, k)));
    assert(p_loop(ts, m, p, z, vars, funcs) == Ok::<(SExpr, int), SCompileError>((z, m)));
    assert(p_expr(ts, k + 1, p, vars, funcs) == Ok::<(SExpr, int), SCompileError>((z, m)));
    assert(p_loop(ts, m, 0, xyz, vars, funcs) == Ok::<(SExpr, int), SCompileError>((xyz, m)));
    assert(p_loop(ts, k, 0, xy, vars, funcs) == Ok::<(SExpr, int), SCompileError>((xyz, m)));
    assert(p_loop(ts, j, 0, x, vars, funcs) == Ok::<(SExpr, int), SCompileError>((xyz, m)));
}

/// The name `i32` after the `)` of a parameter list makes a function that
/// returns an `i32`: a definition read from there has return type `I32`.
pub proof fn law_i32_return_type(
    ts: Seq<SLexStep>,
    m: int,
    name: Seq<char>,
    params: Seq<SParam>,
    vars: Scope,
    funcs: Signatures,
)
    requires
        0 <= m,
        m + 1 < ts.len(),
        tok_at(ts, m) is CloseParen,
        ts[m + 1] matches LexStepOf::Token(t, _) && t == TokenOf::<Seq<char>>::Ident(
            seq!['i', '3', '2'],
        ),
    ensures
        p_fn_rest(ts, m, name, params, vars, funcs) matches Ok((f, _, _, _))
            ==> f.return_type == ASTType::I32,
{
    assert(seq!['i', '3', '2'] =~= i32_name());
}

/// An operator that binds tighter takes its operands first: in `x o1 y o2
/// z` where `o2` binds tighter than `o1` and nothing binds after `z`, the
/// expression read from `x` is `x o1 (y o2 z)`, and it ends after `z`.
pub proof fn law_tighter_operator_first(
    ts: Seq<SLexStep>,
    i: int,
    vars: Scope,
    funcs: Signatures,
    x: SExpr,
    j: int,
    y: SExpr,
    k: int,
    z: SExpr,
    m: int,
)
    requires
        p_primary(ts, i, vars, funcs) == Ok::<(SExpr, int), SCompileError>((x, j)),
        p_primary(ts, j + 1, vars, funcs) == Ok::<(SExpr, int), SCompileError>((y, k)),
        p_primary(ts, k + 1, vars, funcs) == Ok::<(SExpr, int), SCompileError>((z, m)),
        0 <= i < j,
        j + 1 < k,
        k + 1 < m < ts.len(),
        ts[j + 1] is Token,
        ts[k + 1] is Token,
        0 < precedence(tok_at(ts, j)) < precedence(tok_at(ts, k)),
        precedence(tok_at(ts, m)) == 0,
    ensures
        p_expr(ts, i, 0, vars, funcs) == Ok::<(SExpr, int), SCompileError>(
            (
                SExpr::Binary(
                    Box::new(x),
                    binop_of(tok_at(ts, j)),
                    Box::new(SExpr::Binary(Box::new(y), binop_of(tok_at(ts, k)), Box::new(z))),
                ),
                m,
            ),
        ),
{
    let p1 = precedence(tok_at(ts, j));
    let p2 = precedence(tok_at(ts, k));
    let yz = SExpr::Binary(Box::new(y), binop_of(tok_at(ts, k)), Box::new(z));
    let xyz = SExpr::Binary(Box::new(x), binop_of(tok_at(ts, j)), Box::new(yz));
    assert(p_loop(ts, m, p2, z, vars, funcs) == Ok::<(SExpr, int), SCompileError>((z, m)));
    assert(p_expr(ts, k + 1, p2, vars, funcs) == Ok::<(SExpr, int), SCompileError>((z, m)));
    assert(p_loop(ts, m, p1, yz, vars, funcs) == Ok::<(SExpr, int), SCompileError>((yz, m)));
    assert(p_loop(ts, k, p1, y, vars, funcs) == Ok::<(SExpr, int), SCompileError>((yz, m)));
    assert(p_expr(ts, j + 1, p1, vars, funcs) == Ok::<(SExpr, int), SCompileError>((yz, m)));
    assert(p_loop(ts, m, 0, xyz, vars, funcs) == Ok::<(SExpr, int), SCompileError>((xyz, m)));
    assert(p_loop(ts, j, 0, x, vars, funcs) == Ok::<(SExpr, int), SCompileError>((xyz, m)));
}

} // verus!
