use vstd::prelude::*;

use crate::token::TokenOf;

verus! {

/// Why a source text was rejected; `S` is the type of names.
#[derive(Debug, PartialEq)]
pub enum ErrorKindOf<S> {
    /// A byte that starts no token.
    UnknownCharacter(u8),
    /// A decimal literal whose value exceeds `i32::MAX`.
    IntegerOverflow,
    /// A top-level token other than `fn`.
    UnexpectedGlobal(TokenOf<S>),
    ExpectedFunctionName(TokenOf<S>),
    ExpectedOpenParen(TokenOf<S>),
    ExpectedParamName(TokenOf<S>),
    ExpectedColon(TokenOf<S>),
    UnknownParamType(S),
    ExpectedParamType(TokenOf<S>),
    ExpectedParamSeparator(TokenOf<S>),
    ExpectedParamListEnd(TokenOf<S>),
    UnknownReturnType(S),
    ExpectedOpenCurly(TokenOf<S>),
    UnknownStatement(TokenOf<S>),
    UndeclaredAssignTarget(S),
    /// An assignment to a name whose type is not `i32`.
    TypeMismatch,
    ExpectedSemicolon(TokenOf<S>),
    ExpectedAssignEquals(TokenOf<S>),
    ExpectedEmptyReturn(TokenOf<S>),
    ExpectedVariableName(TokenOf<S>),
    ExpectedLetEquals(TokenOf<S>),
    ExpectedArgSeparator(TokenOf<S>),
    ExpectedArgListEnd,
    /// A call of a function with the wrong number of arguments:
    /// the name, the parameters it has, the arguments given.
    ArityMismatch(S, usize, usize),
    UndeclaredFunction(S),
    UndeclaredIdentifier(S),
    /// A parenthesised expression without its `)`.
    ExpectedCloseParen,
    ExpectedExpression(TokenOf<S>),
}

/// A rejection, with the source line it was found on.
#[derive(Debug, PartialEq)]
pub struct CompileErrorOf<S> {
    pub line: usize,
    pub kind: ErrorKindOf<S>,
}

pub type ErrorKind = ErrorKindOf<String>;

pub type CompileError = CompileErrorOf<String>;

pub type SErrorKind = ErrorKindOf<Seq<char>>;

pub type SCompileError = CompileErrorOf<Seq<char>>;

impl View for ErrorKindOf<String> {
    type V = SErrorKind;

    open spec fn view(&self) -> SErrorKind {
        match self {
            ErrorKindOf::UnknownCharacter(c) => ErrorKindOf::UnknownCharacter(*c),
            ErrorKindOf::IntegerOverflow => ErrorKindOf::IntegerOverflow,
            ErrorKindOf::UnexpectedGlobal(t) => ErrorKindOf::UnexpectedGlobal(t@),
            ErrorKindOf::ExpectedFunctionName(t) => ErrorKindOf::ExpectedFunctionName(t@),
            ErrorKindOf::ExpectedOpenParen(t) => ErrorKindOf::ExpectedOpenParen(t@),
            ErrorKindOf::ExpectedParamName(t) => ErrorKindOf::ExpectedParamName(t@),
            ErrorKindOf::ExpectedColon(t) => ErrorKindOf::ExpectedColon(t@),
            ErrorKindOf::UnknownParamType(s) => ErrorKindOf::UnknownParamType(s@),
            ErrorKindOf::ExpectedParamType(t) => ErrorKindOf::ExpectedParamType(t@),
            ErrorKindOf::ExpectedParamSeparator(t) => ErrorKindOf::ExpectedParamSeparator(t@),
            ErrorKindOf::ExpectedParamListEnd(t) => ErrorKindOf::ExpectedParamListEnd(t@),
            ErrorKindOf::UnknownReturnType(s) => ErrorKindOf::UnknownReturnType(s@),
            ErrorKindOf::ExpectedOpenCurly(t) => ErrorKindOf::ExpectedOpenCurly(t@),
            ErrorKindOf::UnknownStatement(t) => ErrorKindOf::UnknownStatement(t@),
            ErrorKindOf::UndeclaredAssignTarget(s) => ErrorKindOf::UndeclaredAssignTarget(s@),
            ErrorKindOf::TypeMismatch => ErrorKindOf::TypeMismatch,
            ErrorKindOf::ExpectedSemicolon(t) => ErrorKindOf::ExpectedSemicolon(t@),
            ErrorKindOf::ExpectedAssignEquals(t) => ErrorKindOf::ExpectedAssignEquals(t@),
            ErrorKindOf::ExpectedEmptyReturn(t) => ErrorKindOf::ExpectedEmptyReturn(t@),
            ErrorKindOf::ExpectedVariableName(t) => ErrorKindOf::ExpectedVariableName(t@),
            ErrorKindOf::ExpectedLetEquals(t) => ErrorKindOf::ExpectedLetEquals(t@),
            ErrorKindOf::ExpectedArgSeparator(t) => ErrorKindOf::ExpectedArgSeparator(t@),
            ErrorKindOf::ExpectedArgListEnd => ErrorKindOf::ExpectedArgListEnd,
            ErrorKindOf::ArityMismatch(s, a, b) => ErrorKindOf::ArityMismatch(s@, *a, *b),
            ErrorKindOf::UndeclaredFunction(s) => ErrorKindOf::UndeclaredFunction(s@),
            ErrorKindOf::UndeclaredIdentifier(s) => ErrorKindOf::UndeclaredIdentifier(s@),
            ErrorKindOf::ExpectedCloseParen => ErrorKindOf::ExpectedCloseParen,
            ErrorKindOf::ExpectedExpression(t) => ErrorKindOf::ExpectedExpression(t@),
        }
    }
}

impl View for CompileErrorOf<String> {
    type V = SCompileError;

    open spec fn view(&self) -> SCompileError {
        CompileErrorOf { line: self.line, kind: self.kind@ }
    }
}

impl ErrorKindOf<String> {
    /// A copy of this error kind.
    pub fn duplicate(&self) -> (k: ErrorKind)
        ensures
            k@ == self@,
    {
        match self {
            ErrorKindOf::UnknownCharacter(a0) => ErrorKindOf::UnknownCharacter(*a0),
            ErrorKindOf::IntegerOverflow => ErrorKindOf::IntegerOverflow,
            ErrorKindOf::UnexpectedGlobal(a0) => ErrorKindOf::UnexpectedGlobal(a0.duplicate()),
            ErrorKindOf::ExpectedFunctionName(a0) => ErrorKindOf::ExpectedFunctionName(a0.duplicate()),
            ErrorKindOf::ExpectedOpenParen(a0) => ErrorKindOf::ExpectedOpenParen(a0.duplicate()),
            ErrorKindOf::ExpectedParamName(a0) => ErrorKindOf::ExpectedParamName(a0.duplicate()),
            ErrorKindOf::ExpectedColon(a0) => ErrorKindOf::ExpectedColon(a0.duplicate()),
            ErrorKindOf::UnknownParamType(a0) => ErrorKindOf::UnknownParamType(a0.clone()),
            ErrorKindOf::ExpectedParamType(a0) => ErrorKindOf::ExpectedParamType(a0.duplicate()),
            ErrorKindOf::ExpectedParamSeparator(a0) => ErrorKindOf::ExpectedParamSeparator(a0.duplicate()),
            ErrorKindOf::ExpectedParamListEnd(a0) => ErrorKindOf::ExpectedParamListEnd(a0.duplicate()),
            ErrorKindOf::UnknownReturnType(a0) => ErrorKindOf::UnknownReturnType(a0.clone()),
            ErrorKindOf::ExpectedOpenCurly(a0) => ErrorKindOf::ExpectedOpenCurly(a0.duplicate()),
            ErrorKindOf::UnknownStatement(a0) => ErrorKindOf::UnknownStatement(a0.duplicate()),
            ErrorKindOf::UndeclaredAssignTarget(a0) => ErrorKindOf::UndeclaredAssignTarget(a0.clone()),
            ErrorKindOf::TypeMismatch => ErrorKindOf::TypeMismatch,
            ErrorKindOf::ExpectedSemicolon(a0) => ErrorKindOf::ExpectedSemicolon(a0.duplicate()),
            ErrorKindOf::ExpectedAssignEquals(a0) => ErrorKindOf::ExpectedAssignEquals(a0.duplicate()),
            ErrorKindOf::ExpectedEmptyReturn(a0) => ErrorKindOf::ExpectedEmptyReturn(a0.duplicate()),
            ErrorKindOf::ExpectedVariableName(a0) => ErrorKindOf::ExpectedVariableName(a0.duplicate()),
            ErrorKindOf::ExpectedLetEquals(a0) => ErrorKindOf::ExpectedLetEquals(a0.duplicate()),
            ErrorKindOf::ExpectedArgSeparator(a0) => ErrorKindOf::ExpectedArgSeparator(a0.duplicate()),
            ErrorKindOf::ExpectedArgListEnd => ErrorKindOf::ExpectedArgListEnd,
            ErrorKindOf::ArityMismatch(a0, a1, a2) => ErrorKindOf::ArityMismatch(a0.clone(), *a1, *a2),
            ErrorKindOf::UndeclaredFunction(a0) => ErrorKindOf::UndeclaredFunction(a0.clone()),
            ErrorKindOf::UndeclaredIdentifier(a0) => ErrorKindOf::UndeclaredIdentifier(a0.clone()),
            ErrorKindOf::ExpectedCloseParen => ErrorKindOf::ExpectedCloseParen,
            ErrorKindOf::ExpectedExpression(a0) => ErrorKindOf::ExpectedExpression(a0.duplicate()),
        }
    }
}

impl CompileErrorOf<String> {
    /// A copy of this error.
    pub fn duplicate(&self) -> (e: CompileError)
        ensures
            e@ == self@,
    {
        CompileErrorOf { line: self.line, kind: self.kind.duplicate() }
    }
}

} // verus!
