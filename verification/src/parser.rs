use vstd::prelude::*;
use vstd::slice::slice_to_vec;
use vstd::utf8::encode_utf8;

use crate::ast::{
    lemma_models_of_len, models_of, param_models, program_model, stmt_models, ASTAssignmentStmt,
    ASTExpr, ASTFuncDef, ASTLetStmt, ASTNode, ASTParam, ASTReturnStmt, ASTStmt, ASTType, BinaryOp,
    SFunc,
};
use crate::error::{CompileError, CompileErrorOf, ErrorKind, ErrorKindOf, SCompileError};
use crate::functions::FunctionTable;
use crate::grammar::{
    advance, compile_spec, err_at, i32_name, line_at, p_args, p_assign, p_body, p_call, p_expr,
    p_fn_def, p_fn_rest, p_let, p_loop, p_params, p_primary, p_program, p_return, p_stmt, tok_at,
    void_name,
};
use crate::lexer::{lemma_lex_progress, lex_token, steps_view, tokenize, token_stream, LexStep, LexStepOf, SLexStep};
use crate::symbol_table::SymbolTable;
use crate::scoping::{lemma_fn_def_scoped, signatures};
use crate::token::{precedence, SToken, Token, TokenOf};

verus! {

/// A stream as the lexer makes it: tokens other than `EOF`, then `EOF` or a
/// failure as its last element.
pub open spec fn wf_stream(ts: Seq<SLexStep>) -> bool {
    &&& ts.len() > 0
    &&& forall|k: int|
        0 <= k < ts.len() - 1 ==> (#[trigger] ts[k]) is Token && tok_at(ts, k) !is EOF
    &&& (ts.last() is Failure || tok_at(ts, ts.len() - 1) is EOF)
}

/// The outcome of parsing a value of model `V`, compared with what the
/// grammar gives: the same value and end position, or the same error.
pub open spec fn same_outcome<T, V>(
    spec_result: Result<(V, int), SCompileError>,
    r: Result<T, CompileError>,
    model: spec_fn(T) -> V,
    end: int,
) -> bool {
    match spec_result {
        Ok((v, m)) => r matches Ok(x) && model(x) == v && end == m,
        Err(e) => r matches Err(x) && x@ == e,
    }
}

/// Whether `s` is the type name `i32`.
fn is_i32_name(s: &String) -> (b: bool)
    ensures
        b == (s@ == i32_name()),
{
    let i32_text = "i32".to_owned();
    proof {
        reveal_strlit("i32");
        assert(i32_text@ =~= i32_name());
    }
    *s == i32_text
}

/// Whether `s` is the type name `void`.
fn is_void_name(s: &String) -> (b: bool)
    ensures
        b == (s@ == void_name()),
{
    let void_text = "void".to_owned();
    proof {
        reveal_strlit("void");
        assert(void_text@ =~= void_name());
    }
    *s == void_text
}

/// The lexer's stream is well formed: tokens other than `EOF`, ended by
/// `EOF` or by a failure, which is thus the first error in the text.
pub proof fn law_token_stream_well_formed(s: Seq<u8>, i: int, line: usize)
    requires
        0 <= i <= s.len(),
        line <= i + 1,
    ensures
        wf_stream(token_stream(s, i, line)),
    decreases s.len() - i,
{
    lemma_lex_progress(s, i, line);
    match lex_token(s, i, line) {
        Err(e) => {},
        Ok((t, n, l)) => {
            if t !is EOF {
                law_token_stream_well_formed(s, n, l);
                let ts = token_stream(s, i, line);
                let rest = token_stream(s, n, l);
                assert(ts == seq![LexStepOf::Token(t, l)] + rest);
                assert forall|k: int| 0 <= k < ts.len() - 1 implies (#[trigger] ts[k]) is Token
                    && tok_at(ts, k) !is EOF by {
                    if k > 0 {
                        assert(ts[k] == rest[k - 1]);
                    }
                }
                assert(ts.last() == rest.last());
            }
        },
    }
}

/// The compiler: the source, its token stream and the position reached in
/// it, the functions parsed so far, and the names in scope.
pub struct Compiler {
    src: Vec<u8>,
    tokens: Vec<LexStep>,
    pos: usize,
    program: Vec<ASTNode>,
    vars: SymbolTable,
    functions: FunctionTable,
}

impl Compiler {
    pub closed spec fn source(&self) -> Seq<u8> {
        self.src@
    }

    pub closed spec fn ts(&self) -> Seq<SLexStep> {
        steps_view(self.tokens@)
    }

    pub closed spec fn parsed(&self) -> Seq<SFunc> {
        program_model(self.program@)
    }

    /// The functions declared so far, with their numbers of parameters.
    pub closed spec fn declared_functions(&self) -> Map<Seq<char>, nat> {
        self.functions@
    }

    /// The variables in scope.
    pub closed spec fn scope(&self) -> Map<Seq<char>, ASTType> {
        self.vars@
    }

    /// The token the compiler stands on.
    pub closed spec fn current_token(&self) -> SToken {
        tok_at(self.ts(), self.pos as int)
    }

    /// The index of the current token in `ts()`.
    pub closed spec fn position(&self) -> int {
        self.pos as int
    }

    /// How many entries of the token stream lie ahead of the position.
    pub closed spec fn tokens_left(&self) -> int {
        self.tokens@.len() - self.pos
    }

    /// The state while parsing: a stream as the lexer makes it, standing on
    /// one of its tokens.
    pub closed spec fn parsing(&self) -> bool {
        &&& wf_stream(self.ts())
        &&& 0 <= self.pos < self.ts().len()
        &&& self.ts()[self.pos as int] is Token
        &&& self.functions.wf()
    }

    /// `self` and `other` differ at most in the position.
    pub closed spec fn same_context(&self, other: &Compiler) -> bool {
        &&& self.same_but_scope(other)
        &&& self.vars@ == other.vars@
    }

    /// `self` and `other` differ at most in the position and the scope.
    closed spec fn same_but_scope(&self, other: &Compiler) -> bool {
        &&& self.src@ == other.src@
        &&& self.tokens@ == other.tokens@
        &&& self.program@ == other.program@
        &&& self.functions@ == other.functions@
    }

    /// Whether this compiler was just made: nothing parsed, no function
    /// declared, a source whose length leaves room for the line count.
    pub closed spec fn is_fresh(&self) -> bool {
        &&& self.src@.len() < usize::MAX
        &&& self.program@.len() == 0
        &&& self.functions.wf()
        &&& self.functions@ == Map::<Seq<char>, nat>::empty()
    }

    /// A compiler for the source text `src`, read as its UTF-8 bytes.
    pub fn new(src: String) -> (c: Compiler)
        requires
            encode_utf8(src@).len() < usize::MAX,
        ensures
            c.is_fresh(),
            c.source() == encode_utf8(src@),
            c.parsed() == Seq::<SFunc>::empty(),
            c.declared_functions() == Map::<Seq<char>, nat>::empty(),
            c.scope() == Map::<Seq<char>, ASTType>::empty(),
    {
        let bytes = slice_to_vec(src.as_str().as_bytes());
        let c = Compiler {
            src: bytes,
            tokens: Vec::new(),
            pos: 0,
            program: Vec::new(),
            vars: SymbolTable::new(),
            functions: FunctionTable::new(),
        };
        assert(program_model(c.program@) =~= Seq::<SFunc>::empty());
        c
    }

    /// The functions parsed, in source order.
    pub fn program(&self) -> (p: &Vec<ASTNode>)
        ensures
            program_model(p@) == self.parsed(),
    {
        &self.program
    }

    /// The functions parsed, in source order, taken out of the compiler.
    pub fn into_program(self) -> (p: Vec<ASTNode>)
        ensures
            program_model(p@) == self.parsed(),
    {
        self.program
    }

    /// Reads the whole source: its tokens, then its function definitions
    /// with their scope and arity checks. The result is the program that
    /// `compile_spec` gives for the source, or exactly the error it gives.
    pub fn build_ast(&mut self) -> (r: Result<(), CompileError>)
        requires
            old(self).is_fresh(),
        ensures
            match compile_spec(old(self).source()) {
                Ok(p) => r is Ok && final(self).parsed() == p && final(self).declared_functions()
                    == signatures(p) && final(self).current_token() == TokenOf::<Seq<char>>::EOF
                    && final(self).parsing(),
                Err(e) => r matches Err(x) && x@ == e,
            },
    {
        let ghost src = self.src@;
        let bytes = slice_to_vec(self.src.as_slice());
        self.tokens = tokenize(bytes);
        self.pos = 0;
        proof {
            law_token_stream_well_formed(src, 0, 1);
            assert(program_model(self.program@) =~= Seq::empty());
        }
        let ghost ts = self.ts();
        assert(self.tokens@[0]@ == ts[0]);
        if let LexStepOf::Failure(e) = &self.tokens[0] {
            return Err(e.duplicate());
        }
        loop
            invariant
                self.parsing(),
                self.src@ == src,
                src == old(self).src@,
                ts == self.ts(),
                ts == token_stream(src, 0, 1),
                compile_spec(src) == p_program(ts, self.pos as int, self.functions@, self.parsed()),
                self.functions@ == signatures(self.parsed()),
            decreases self.tokens@.len() - self.pos,
        {
            match self.cur() {
                TokenOf::EOF => {
                    return Ok(());
                },
                TokenOf::Fn => {
                    let ghost i = self.pos as int;
                    let ghost funcs = self.functions@;
                    let ghost prog = self.parsed();
                    self.parse_fn_def()?;
                    let ghost m = self.pos as int;
                    self.lexe()?;
                    proof {
                        lemma_fn_def_scoped(ts, i, funcs);
                        let (f, m1, v, fs) = p_fn_def(ts, i, funcs)->Ok_0;
                        assert(prog.push(f).drop_last() =~= prog);
                        assert(m1 == m);
                        assert(p_program(ts, i, funcs, prog) == p_program(
                            ts,
                            self.pos as int,
                            fs,
                            prog.push(f),
                        ));
                    }
                },
                _ => {
                    let t = self.cur().duplicate();
                    return Err(self.error(ErrorKindOf::UnexpectedGlobal(t)));
                },
            }
        }
    }

    /// The current token.
    fn cur(&self) -> (t: &Token)
        requires
            self.parsing(),
        ensures
            t@ == tok_at(self.ts(), self.pos as int),
    {
        match &self.tokens[self.pos] {
            LexStepOf::Token(t, _) => t,
            LexStepOf::Failure(_) => &TokenOf::EOF,
        }
    }

    /// The line of the current token.
    fn cur_line(&self) -> (l: usize)
        requires
            self.parsing(),
        ensures
            l == line_at(self.ts(), self.pos as int),
    {
        match &self.tokens[self.pos] {
            LexStepOf::Token(_, l) => *l,
            LexStepOf::Failure(e) => e.line,
        }
    }

    /// An error of kind `kind` at the current token.
    fn error(&self, kind: ErrorKind) -> (e: CompileError)
        requires
            self.parsing(),
        ensures
            e@ == err_at(self.ts(), self.pos as int, kind@),
    {
        CompileErrorOf { line: self.cur_line(), kind }
    }

    /// Moves past the current token, which is not `EOF`.
    fn lexe(&mut self) -> (r: Result<(), CompileError>)
        requires
            old(self).parsing(),
            tok_at(old(self).ts(), old(self).pos as int) !is EOF,
        ensures
            final(self).same_context(old(self)),
            r is Ok ==> final(self).parsing(),
            match advance(old(self).ts(), old(self).pos as int) {
                Ok(k) => r is Ok && final(self).pos == k,
                Err(e) => r matches Err(x) && x@ == e,
            },
    {
        let ghost ts = self.ts();
        assert(self.tokens@[self.pos as int]@ == ts[self.pos as int]);
        let n = self.tokens.len();
        if self.pos + 1 < n {
            assert(self.tokens@[self.pos + 1]@ == ts[self.pos + 1]);
            match &self.tokens[self.pos + 1] {
                LexStepOf::Failure(e) => Err(e.duplicate()),
                LexStepOf::Token(_, _) => {
                    self.pos = self.pos + 1;
                    Ok(())
                },
            }
        } else {
            Err(self.error(ErrorKindOf::UnexpectedGlobal(TokenOf::EOF)))
        }
    }

    /// The binding strength of `tok` as an operator; 0 if it is none.
    fn token_precedence(&self, tok: &Token) -> (p: u32)
        ensures
            p == precedence(tok@),
    {
        match tok {
            TokenOf::Plus | TokenOf::Minus => 1,
            TokenOf::Asterisk | TokenOf::Slash => 2,
            _ => 0,
        }
    }

    /// Parses an expression whose operators bind tighter than
    /// `min_precedence`, as `p_expr` says.
    pub fn parse_expr(&mut self, min_precedence: u32) -> (r: Result<ASTExpr, CompileError>)
        requires
            old(self).parsing(),
        ensures
            final(self).same_context(old(self)),
            final(self).source() == old(self).source(),
            final(self).ts() == old(self).ts(),
            final(self).parsed() == old(self).parsed(),
            final(self).scope() == old(self).scope(),
            final(self).declared_functions() == old(self).declared_functions(),
            r is Ok ==> final(self).parsing() && old(self).position() < final(self).position(),
            same_outcome(
                p_expr(
                    old(self).ts(),
                    old(self).position(),
                    min_precedence,
                    old(self).scope(),
                    old(self).declared_functions(),
                ),
                r,
                |x: ASTExpr| x.model(),
                final(self).position(),
            ),
        decreases old(self).tokens_left(), 2nat,
    {
        let ghost ts = self.ts();
        let ghost i0 = self.pos as int;
        let ghost vars = self.vars@;
        let ghost funcs = self.functions@;
        let mut left = self.parse_primary()?;
        loop
            invariant
                self.parsing(),
                self.same_context(old(self)),
                ts == self.ts(),
                ts == old(self).ts(),
                vars == self.vars@,
                funcs == self.functions@,
                vars == old(self).vars@,
                funcs == old(self).functions@,
                i0 < self.pos,
                i0 == old(self).pos,
                p_expr(ts, i0, min_precedence, vars, funcs) == p_loop(
                    ts,
                    self.pos as int,
                    min_precedence,
                    left.model(),
                    vars,
                    funcs,
                ),
            decreases self.tokens@.len() - self.pos,
        {
            let prec = self.token_precedence(self.cur());
            if prec == 0 || prec <= min_precedence {
                return Ok(left);
            }
            let op = match self.cur() {
                TokenOf::Plus => BinaryOp::Add,
                TokenOf::Minus => BinaryOp::Sub,
                TokenOf::Asterisk => BinaryOp::Mul,
                _ => BinaryOp::Div,
            };
            let ghost j = self.pos as int;
            let ghost lm = left.model();
            self.lexe()?;
            let right = self.parse_expr(prec)?;
            left = ASTExpr::Binary(Box::new(left), op, Box::new(right));
            assert(p_loop(ts, j, min_precedence, lm, vars, funcs) == p_loop(
                ts,
                self.pos as int,
                min_precedence,
                left.model(),
                vars,
                funcs,
            ));
        }
    }

    /// Parses a literal, a variable, a call or a parenthesised expression,
    /// as `p_primary` says.
    fn parse_primary(&mut self) -> (r: Result<ASTExpr, CompileError>)
        requires
            old(self).parsing(),
        ensures
            final(self).same_context(old(self)),
            r is Ok ==> final(self).parsing() && old(self).pos < final(self).pos,
            same_outcome(
                p_primary(old(self).ts(), old(self).pos as int, old(self).vars@, old(self).functions@),
                r,
                |x: ASTExpr| x.model(),
                final(self).pos as int,
            ),
        decreases old(self).tokens@.len() - old(self).pos, 1nat,
    {
        let tok = self.cur().duplicate();
        match tok {
            TokenOf::Int(v) => {
                self.lexe()?;
                Ok(ASTExpr::Int(v))
            },
            TokenOf::Ident(name) => {
                self.lexe()?;
                if matches!(self.cur(), TokenOf::OpenParen) {
                    self.parse_call(name)
                } else {
                    if self.vars.lookup(name.as_str()).is_none() {
                        Err(self.error(ErrorKindOf::UndeclaredIdentifier(name)))
                    } else {
                        Ok(ASTExpr::Variable(name))
                    }
                }
            },
            TokenOf::OpenParen => {
                self.lexe()?;
                let e = self.parse_expr(0)?;
                if !matches!(self.cur(), TokenOf::CloseParen) {
                    return Err(self.error(ErrorKindOf::ExpectedCloseParen));
                }
                self.lexe()?;
                Ok(e)
            },
            t => Err(self.error(ErrorKindOf::ExpectedExpression(t))),
        }
    }

    /// Parses a call of `name` from its `(`, as `p_call` says.
    fn parse_call(&mut self, name: String) -> (r: Result<ASTExpr, CompileError>)
        requires
            old(self).parsing(),
            tok_at(old(self).ts(), old(self).pos as int) is OpenParen,
        ensures
            final(self).same_context(old(self)),
            r is Ok ==> final(self).parsing() && old(self).pos < final(self).pos,
            same_outcome(
                p_call(
                    old(self).ts(),
                    old(self).pos as int,
                    name@,
                    old(self).vars@,
                    old(self).functions@,
                ),
                r,
                |x: ASTExpr| x.model(),
                final(self).pos as int,
            ),
        decreases old(self).tokens@.len() - old(self).pos, 1nat,
    {
        self.lexe()?;
        let args = if matches!(self.cur(), TokenOf::CloseParen) {
            Vec::new()
        } else {
            self.parse_args()?
        };
        if !matches!(self.cur(), TokenOf::CloseParen) {
            return Err(self.error(ErrorKindOf::ExpectedArgListEnd));
        }
        self.lexe()?;
        proof {
            lemma_models_of_len(args@);
        }
        match self.functions.arity(&name) {
            None => Err(self.error(ErrorKindOf::UndeclaredFunction(name))),
            Some(n) => {
                if n != args.len() {
                    Err(self.error(ErrorKindOf::ArityMismatch(name, n, args.len())))
                } else {
                    Ok(ASTExpr::Call(name, args))
                }
            },
        }
    }

    /// Parses call arguments up to the `)`, as `p_args` says.
    fn parse_args(&mut self) -> (r: Result<Vec<ASTExpr>, CompileError>)
        requires
            old(self).parsing(),
        ensures
            final(self).same_context(old(self)),
            r is Ok ==> final(self).parsing() && old(self).pos < final(self).pos,
            same_outcome(
                p_args(
                    old(self).ts(),
                    old(self).pos as int,
                    Seq::empty(),
                    old(self).vars@,
                    old(self).functions@,
                ),
                r,
                |x: Vec<ASTExpr>| models_of(x@),
                final(self).pos as int,
            ),
        decreases old(self).tokens@.len() - old(self).pos, 3nat,
    {
        let ghost ts = self.ts();
        let ghost i0 = self.pos as int;
        let ghost vars = self.vars@;
        let ghost funcs = self.functions@;
        let mut args: Vec<ASTExpr> = Vec::new();
        loop
            invariant
                self.parsing(),
                self.same_context(old(self)),
                ts == self.ts(),
                ts == old(self).ts(),
                vars == self.vars@,
                funcs == self.functions@,
                vars == old(self).vars@,
                funcs == old(self).functions@,
                i0 <= self.pos,
                i0 == old(self).pos,
                args@.len() > 0 ==> i0 < self.pos,
                p_args(ts, i0, Seq::empty(), vars, funcs) == p_args(
                    ts,
                    self.pos as int,
                    models_of(args@),
                    vars,
                    funcs,
                ),
            decreases self.tokens@.len() - self.pos,
        {
            let ghost prev = args@;
            let e = self.parse_expr(0)?;
            args.push(e);
            assert(args@.drop_last() =~= prev);
            if matches!(self.cur(), TokenOf::Comma) {
                self.lexe()?;
            } else if matches!(self.cur(), TokenOf::CloseParen) {
                return Ok(args);
            } else {
                let t = self.cur().duplicate();
                return Err(self.error(ErrorKindOf::ExpectedArgSeparator(t)));
            }
        }
    }

    /// Parses `let NAME = EXPR` and declares `NAME`, as `p_let` says.
    fn parse_let_stmt(&mut self) -> (r: Result<ASTStmt, CompileError>)
        requires
            old(self).parsing(),
            tok_at(old(self).ts(), old(self).pos as int) is Let,
        ensures
            final(self).same_but_scope(old(self)),
            r is Ok ==> final(self).parsing() && old(self).pos < final(self).pos,
            match p_let(old(self).ts(), old(self).pos as int, old(self).vars@, old(self).functions@) {
                Ok((st, m, v)) => r matches Ok(x) && x.model() == st && final(self).pos == m
                    && final(self).vars@ == v,
                Err(e) => r matches Err(x) && x@ == e,
            },
    {
        self.lexe()?;
        let var_name = match self.cur() {
            TokenOf::Ident(name) => name.clone(),
            _ => {
                let t = self.cur().duplicate();
                return Err(self.error(ErrorKindOf::ExpectedVariableName(t)));
            },
        };
        self.lexe()?;
        if !matches!(self.cur(), TokenOf::Equals) {
            let t = self.cur().duplicate();
            return Err(self.error(ErrorKindOf::ExpectedLetEquals(t)));
        }
        self.lexe()?;
        let value = self.parse_expr(0)?;
        let _ = self.vars.insert(var_name.clone(), ASTType::I32);
        Ok(ASTStmt::LetStmt(ASTLetStmt { var_name, value }))
    }

    /// Parses `return EXPR` or `return`, as `p_return` says.
    fn parse_return_stmt(&mut self, return_type: &ASTType) -> (r: Result<ASTStmt, CompileError>)
        requires
            old(self).parsing(),
            tok_at(old(self).ts(), old(self).pos as int) is Return,
        ensures
            final(self).same_context(old(self)),
            r is Ok ==> final(self).parsing() && old(self).pos < final(self).pos,
            same_outcome(
                p_return(
                    old(self).ts(),
                    old(self).pos as int,
                    *return_type,
                    old(self).vars@,
                    old(self).functions@,
                ),
                r,
                |x: ASTStmt| x.model(),
                final(self).pos as int,
            ),
    {
        self.lexe()?;
        match return_type {
            ASTType::Void => {
                if !matches!(self.cur(), TokenOf::Semicolon) {
                    let t = self.cur().duplicate();
                    return Err(self.error(ErrorKindOf::ExpectedEmptyReturn(t)));
                }
                Ok(
                    ASTStmt::ReturnStmt(
                        ASTReturnStmt { value: ASTExpr::Int(0), function_ret_type: ASTType::Void },
                    ),
                )
            },
            ASTType::I32 => {
                let value = self.parse_expr(0)?;
                Ok(ASTStmt::ReturnStmt(ASTReturnStmt { value, function_ret_type: ASTType::I32 }))
            },
        }
    }

    /// Parses `NAME = EXPR`, as `p_assign` says.
    fn parse_assignment_stmt(&mut self, var_name: String) -> (r: Result<ASTStmt, CompileError>)
        requires
            old(self).parsing(),
            tok_at(old(self).ts(), old(self).pos as int) == TokenOf::Ident(var_name@),
        ensures
            final(self).same_context(old(self)),
            r is Ok ==> final(self).parsing() && old(self).pos < final(self).pos,
            same_outcome(
                p_assign(
                    old(self).ts(),
                    old(self).pos as int,
                    var_name@,
                    old(self).vars@,
                    old(self).functions@,
                ),
                r,
                |x: ASTStmt| x.model(),
                final(self).pos as int,
            ),
    {
        self.lexe()?;
        if !matches!(self.cur(), TokenOf::Equals) {
            let t = self.cur().duplicate();
            return Err(self.error(ErrorKindOf::ExpectedAssignEquals(t)));
        }
        self.lexe()?;
        let value = self.parse_expr(0)?;
        Ok(ASTStmt::AssignmentStmt(ASTAssignmentStmt { var_name, value }))
    }

    /// Parses a statement and its `;`, as `p_stmt` says.
    fn parse_stmt(&mut self, return_type: &ASTType) -> (r: Result<ASTStmt, CompileError>)
        requires
            old(self).parsing(),
        ensures
            final(self).same_but_scope(old(self)),
            r is Ok ==> final(self).parsing() && old(self).pos < final(self).pos,
            match p_stmt(
                old(self).ts(),
                old(self).pos as int,
                *return_type,
                old(self).vars@,
                old(self).functions@,
            ) {
                Ok((st, m, v)) => r matches Ok(x) && x.model() == st && final(self).pos == m
                    && final(self).vars@ == v,
                Err(e) => r matches Err(x) && x@ == e,
            },
    {
        let tok = self.cur().duplicate();
        let stmt = match tok {
            TokenOf::Let => self.parse_let_stmt()?,
            TokenOf::Return => self.parse_return_stmt(return_type)?,
            TokenOf::Ident(name) => {
                match self.vars.lookup(name.as_str()) {
                    None => {
                        return Err(self.error(ErrorKindOf::UndeclaredAssignTarget(name)));
                    },
                    Some(symbol) => {
                        if symbol.data_type != ASTType::I32 {
                            return Err(self.error(ErrorKindOf::TypeMismatch));
                        }
                    },
                }
                self.parse_assignment_stmt(name)?
            },
            t => {
                return Err(self.error(ErrorKindOf::UnknownStatement(t)));
            },
        };
        if !matches!(self.cur(), TokenOf::Semicolon) {
            let t = self.cur().duplicate();
            return Err(self.error(ErrorKindOf::ExpectedSemicolon(t)));
        }
        self.lexe()?;
        Ok(stmt)
    }

    /// Parses the statements of a function body up to its `}`, as `p_body`
    /// says.
    fn parse_body(&mut self, return_type: &ASTType) -> (r: Result<Vec<ASTStmt>, CompileError>)
        requires
            old(self).parsing(),
        ensures
            final(self).same_but_scope(old(self)),
            r is Ok ==> final(self).parsing() && old(self).pos <= final(self).pos
                && tok_at(final(self).ts(), final(self).pos as int) is CloseCurly,
            match p_body(
                old(self).ts(),
                old(self).pos as int,
                *return_type,
                old(self).vars@,
                old(self).functions@,
                Seq::empty(),
            ) {
                Ok((b, m, v)) => r matches Ok(x) && stmt_models(x@) == b && final(self).pos == m
                    && final(self).vars@ == v,
                Err(e) => r matches Err(x) && x@ == e,
            },
    {
        let ghost ts = self.ts();
        let ghost i0 = self.pos as int;
        let ghost funcs = self.functions@;
        let ghost rt = *return_type;
        let mut body: Vec<ASTStmt> = Vec::new();
        assert(stmt_models(body@) =~= Seq::empty());
        while !matches!(self.cur(), TokenOf::CloseCurly)
            invariant
                self.parsing(),
                self.same_but_scope(old(self)),
                ts == self.ts(),
                ts == old(self).ts(),
                funcs == self.functions@,
                funcs == old(self).functions@,
                rt == *return_type,
                i0 <= self.pos,
                i0 == old(self).pos,
                p_body(ts, i0, rt, old(self).vars@, funcs, Seq::empty()) == p_body(
                    ts,
                    self.pos as int,
                    rt,
                    self.vars@,
                    funcs,
                    stmt_models(body@),
                ),
            decreases self.tokens@.len() - self.pos,
        {
            let ghost prev = body@;
            let stmt = self.parse_stmt(return_type)?;
            body.push(stmt);
            assert(stmt_models(body@) =~= stmt_models(prev).push(stmt.model()));
        }
        Ok(body)
    }

    /// Parses parameters up to the `)` and declares them, as `p_params`
    /// says.
    fn parse_params(&mut self) -> (r: Result<Vec<ASTParam>, CompileError>)
        requires
            old(self).parsing(),
        ensures
            final(self).same_but_scope(old(self)),
            r is Ok ==> final(self).parsing() && old(self).pos < final(self).pos,
            match p_params(old(self).ts(), old(self).pos as int, Seq::empty(), old(self).vars@) {
                Ok((ps, m, v)) => r matches Ok(x) && param_models(x@) == ps && final(self).pos == m
                    && final(self).vars@ == v,
                Err(e) => r matches Err(x) && x@ == e,
            },
    {
        let ghost ts = self.ts();
        let ghost i0 = self.pos as int;
        let mut params: Vec<ASTParam> = Vec::new();
        assert(param_models(params@) =~= Seq::empty());
        loop
            invariant
                self.parsing(),
                self.same_but_scope(old(self)),
                ts == self.ts(),
                ts == old(self).ts(),
                i0 <= self.pos,
                i0 == old(self).pos,
                params@.len() > 0 ==> i0 < self.pos,
                p_params(ts, i0, Seq::empty(), old(self).vars@) == p_params(
                    ts,
                    self.pos as int,
                    param_models(params@),
                    self.vars@,
                ),
            decreases self.tokens@.len() - self.pos,
        {
            let name = match self.cur() {
                TokenOf::Ident(p_name) => p_name.clone(),
                _ => {
                    let t = self.cur().duplicate();
                    return Err(self.error(ErrorKindOf::ExpectedParamName(t)));
                },
            };
            self.lexe()?;
            if !matches!(self.cur(), TokenOf::Colon) {
                let t = self.cur().duplicate();
                return Err(self.error(ErrorKindOf::ExpectedColon(t)));
            }
            self.lexe()?;
            let data_type = match self.cur() {
                TokenOf::Ident(p_type) => {
                    if is_i32_name(p_type) {
                        ASTType::I32
                    } else {
                        let ty = p_type.clone();
                        return Err(self.error(ErrorKindOf::UnknownParamType(ty)));
                    }
                },
                _ => {
                    let t = self.cur().duplicate();
                    return Err(self.error(ErrorKindOf::ExpectedParamType(t)));
                },
            };
            self.lexe()?;
            let ghost prev = params@;
            let _ = self.vars.insert(name.clone(), data_type);
            params.push(ASTParam { name, data_type });
            assert(param_models(params@) =~= param_models(prev).push(params@.last().model()));
            if matches!(self.cur(), TokenOf::Comma) {
                self.lexe()?;
            } else if matches!(self.cur(), TokenOf::CloseParen) {
                return Ok(params);
            } else {
                let t = self.cur().duplicate();
                return Err(self.error(ErrorKindOf::ExpectedParamSeparator(t)));
            }
        }
    }

    /// Parses a function definition from its `fn` to its closing `}`, as
    /// `p_fn_def` says, and adds it to the program.
    fn parse_fn_def(&mut self) -> (r: Result<(), CompileError>)
        requires
            old(self).parsing(),
            tok_at(old(self).ts(), old(self).pos as int) is Fn,
        ensures
            final(self).src@ == old(self).src@,
            final(self).tokens@ == old(self).tokens@,
            r is Ok ==> final(self).parsing() && old(self).pos < final(self).pos
                && tok_at(final(self).ts(), final(self).pos as int) is CloseCurly,
            match p_fn_def(old(self).ts(), old(self).pos as int, old(self).functions@) {
                Ok((f, m, v, fs)) => r is Ok && final(self).pos == m && final(self).functions@ == fs
                    && final(self).vars@ == v
                    && final(self).parsed() == old(self).parsed().push(f),
                Err(e) => r matches Err(x) && x@ == e,
            },
    {
        reveal(p_fn_def);
        self.lexe()?;
        let name = match self.cur() {
            TokenOf::Ident(name) => name.clone(),
            _ => {
                let t = self.cur().duplicate();
                return Err(self.error(ErrorKindOf::ExpectedFunctionName(t)));
            },
        };
        self.lexe()?;
        if !matches!(self.cur(), TokenOf::OpenParen) {
            let t = self.cur().duplicate();
            return Err(self.error(ErrorKindOf::ExpectedOpenParen(t)));
        }
        self.lexe()?;
        self.vars.clear();
        let params = if !matches!(self.cur(), TokenOf::CloseParen) {
            self.parse_params()?
        } else {
            Vec::new()
        };
        assert(params@.len() == 0 ==> param_models(params@) =~= Seq::empty());
        self.parse_fn_rest(name, params)
    }

    /// The rest of a function definition from the `)` after its
    /// parameters, as `p_fn_rest` says.
    fn parse_fn_rest(&mut self, name: String, params: Vec<ASTParam>) -> (r: Result<(), CompileError>)
        requires
            old(self).parsing(),
        ensures
            final(self).src@ == old(self).src@,
            final(self).tokens@ == old(self).tokens@,
            r is Ok ==> final(self).parsing() && old(self).pos < final(self).pos
                && tok_at(final(self).ts(), final(self).pos as int) is CloseCurly,
            match p_fn_rest(
                old(self).ts(),
                old(self).pos as int,
                name@,
                param_models(params@),
                old(self).vars@,
                old(self).functions@,
            ) {
                Ok((f, m, v, fs)) => r is Ok && final(self).pos == m && final(self).functions@ == fs
                    && final(self).vars@ == v
                    && final(self).parsed() == old(self).parsed().push(f),
                Err(e) => r matches Err(x) && x@ == e,
            },
    {
        if !matches!(self.cur(), TokenOf::CloseParen) {
            let t = self.cur().duplicate();
            return Err(self.error(ErrorKindOf::ExpectedParamListEnd(t)));
        }
        self.lexe()?;
        self.functions.insert(name.clone(), params.len());
        let return_type = match self.cur() {
            TokenOf::Ident(ret_type) => {
                let rt = if is_i32_name(ret_type) {
                    ASTType::I32
                } else if is_void_name(ret_type) {
                    ASTType::Void
                } else {
                    let rt_name = ret_type.clone();
                    return Err(self.error(ErrorKindOf::UnknownReturnType(rt_name)));
                };
                self.lexe()?;
                rt
            },
            _ => ASTType::Void,
        };
        if !matches!(self.cur(), TokenOf::OpenCurly) {
            let t = self.cur().duplicate();
            return Err(self.error(ErrorKindOf::ExpectedOpenCurly(t)));
        }
        self.lexe()?;
        let body = self.parse_body(&return_type)?;
        let ghost before = self.program@;
        let f = ASTFuncDef { name, params, return_type, body };
        self.program.push(ASTNode::FuncDef(f));
        assert(program_model(self.program@) =~= program_model(before).push(
            self.program@.last().model(),
        ));
        Ok(())
    }
}

} // verus!
