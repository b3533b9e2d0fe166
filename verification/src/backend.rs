use vstd::prelude::*;
use vstd::string::StringExecFns;

use crate::ast::{
    models_of, program_model, stmt_models, ASTExpr, ASTFuncDef, ASTNode, ASTStmt, ASTType, BinaryOp, SExpr,
    SFunc, SParam, SStmt,
};

verus! {

/// The character of a decimal digit.
pub open spec fn digit_char(d: nat) -> char {
    ((d + 48) as u8) as char
}

/// The decimal digits of `n`, without leading zeros.
pub open spec fn decimal_digits(n: nat) -> Seq<char>
    decreases n,
{
    if n < 10 {
        seq![digit_char(n)]
    } else {
        decimal_digits(n / 10).push(digit_char(n % 10))
    }
}

/// The decimal text of `v`, with a `-` before a negative number.
pub open spec fn decimal(v: int) -> Seq<char> {
    if v < 0 {
        seq!['-'] + decimal_digits((-v) as nat)
    } else {
        decimal_digits(v as nat)
    }
}

/// The instruction of an operator.
pub open spec fn wat_op(op: BinaryOp) -> Seq<char> {
    match op {
        BinaryOp::Add => "\t\ti32.add\n"@,
        BinaryOp::Sub => "\t\ti32.sub\n"@,
        BinaryOp::Mul => "\t\ti32.mul\n"@,
        BinaryOp::Div => "\t\ti32.div_s\n"@,
    }
}

/// The stack code of an expression: operands first, in order, then the
/// operation.
pub open spec fn wat_expr(e: SExpr) -> Seq<char>
    decreases e,
{
    match e {
        SExpr::Int(v) => "\t\ti32.const "@ + decimal(v as int) + "\n"@,
        SExpr::Var(n) => "\t\tlocal.get $"@ + n + "\n"@,
        SExpr::Binary(l, op, r) => wat_expr(*l) + wat_expr(*r) + wat_op(op),
        SExpr::Call(n, args) => wat_args(args) + "\t\tcall $"@ + n + "\n"@,
    }
}

/// The code that `compile_expr` appends for a binary expression (its
/// `ensures` is `wat_expr`): the left operand's code, then the right
/// operand's, then the operation, where `/` is the signed division.
pub proof fn law_binary_code(l: SExpr, op: BinaryOp, r: SExpr)
    ensures
        wat_expr(SExpr::Binary(Box::new(l), op, Box::new(r))) == wat_expr(l) + wat_expr(r) + wat_op(
            op,
        ),
        wat_op(BinaryOp::Add) == "\t\ti32.add\n"@,
        wat_op(BinaryOp::Sub) == "\t\ti32.sub\n"@,
        wat_op(BinaryOp::Mul) == "\t\ti32.mul\n"@,
        wat_op(BinaryOp::Div) == "\t\ti32.div_s\n"@,
{
}

/// The code of call arguments, in order.
pub open spec fn wat_args(args: Seq<SExpr>) -> Seq<char>
    decreases args,
{
    if args.len() == 0 {
        Seq::empty()
    } else {
        wat_args(args.drop_last()) + wat_expr(args.last())
    }
}

/// The code of arguments split anywhere is the code of the first part, then
/// that of the second.
pub proof fn lemma_wat_args_append(a: Seq<SExpr>, b: Seq<SExpr>)
    ensures
        wat_args(a + b) == wat_args(a) + wat_args(b),
    decreases b.len(),
{
    if b.len() == 0 {
        assert(a + b =~= a);
        assert(wat_args(a) + wat_args(b) =~= wat_args(a));
    } else {
        lemma_wat_args_append(a, b.drop_last());
        assert((a + b).drop_last() =~= a + b.drop_last());
        assert((a + b).last() == b.last());
        assert(wat_args(a + b) =~= wat_args(a) + wat_args(b));
    }
}

/// The code of a call pushes its arguments in source order, then calls:
/// the code of each argument comes after the code of every argument before
/// it and before the code of every argument after it; with two arguments,
/// the first is pushed first.
pub proof fn law_call_arguments_in_order(n: Seq<char>, args: Seq<SExpr>, k: int, a: SExpr, b: SExpr)
    requires
        0 <= k < args.len(),
    ensures
        wat_expr(SExpr::Call(n, args)) == wat_args(args.take(k)) + wat_expr(args[k]) + wat_args(
            args.skip(k + 1),
        ) + "\t\tcall $"@ + n + "\n"@,
        wat_expr(SExpr::Call(n, seq![a, b])) == wat_expr(a) + wat_expr(b) + "\t\tcall $"@ + n
            + "\n"@,
        wat_expr(SExpr::Call(n, Seq::empty())) == "\t\tcall $"@ + n + "\n"@,
{
    let one = seq![args[k]];
    assert(wat_args(one) == wat_expr(args[k])) by {
        assert(one.drop_last() =~= Seq::<SExpr>::empty());
        assert(wat_args(Seq::<SExpr>::empty()) + wat_expr(args[k]) =~= wat_expr(args[k]));
    }
    assert(args =~= args.take(k) + one + args.skip(k + 1));
    lemma_wat_args_append(args.take(k) + one, args.skip(k + 1));
    lemma_wat_args_append(args.take(k), one);
    assert(wat_args(seq![a]) == wat_expr(a)) by {
        assert(seq![a].drop_last() =~= Seq::<SExpr>::empty());
        assert(wat_args(Seq::<SExpr>::empty()) + wat_expr(a) =~= wat_expr(a));
    }
    assert(seq![a, b].drop_last() =~= seq![a]);
    assert(wat_args(seq![a, b]) == wat_expr(a) + wat_expr(b));
    assert(wat_args(Seq::<SExpr>::empty()) + "\t\tcall $"@ + n + "\n"@ =~= "\t\tcall $"@ + n + "\n"@);
}

/// The code of a statement.
pub open spec fn wat_stmt(s: SStmt) -> Seq<char> {
    match s {
        SStmt::Let(n, e) => wat_expr(e) + "\t\tlocal.set $"@ + n + "\n"@,
        SStmt::Return(e, t) => match t {
            ASTType::Void => "\t\treturn\n"@,
            ASTType::I32 => wat_expr(e) + "\t\treturn\n"@,
        },
        SStmt::Assign(n, e) => wat_expr(e) + "\t\tlocal.set $"@ + n + "\n"@,
    }
}

/// The code of a sequence of statements.
pub open spec fn wat_stmts(s: Seq<SStmt>) -> Seq<char>
    decreases s.len(),
{
    if s.len() == 0 {
        Seq::empty()
    } else {
        wat_stmts(s.drop_last()) + wat_stmt(s.last())
    }
}

/// The names that `let` statements declare, each once, in the order of
/// their first declaration.
pub open spec fn let_names(s: Seq<SStmt>) -> Seq<Seq<char>>
    decreases s.len(),
{
    if s.len() == 0 {
        Seq::empty()
    } else {
        let prev = let_names(s.drop_last());
        match s.last() {
            SStmt::Let(n, _) => if prev.contains(n) {
                prev
            } else {
                prev.push(n)
            },
            _ => prev,
        }
    }
}

/// Whether `s` is a `let` of `n`.
pub open spec fn declares(s: SStmt, n: Seq<char>) -> bool {
    match s {
        SStmt::Let(m, _) => m == n,
        _ => false,
    }
}

/// Each local of a function is declared exactly once: the names of its
/// local declarations are distinct, and they are exactly the names its
/// `let` statements declare.
pub proof fn law_locals_declared_once(body: Seq<SStmt>)
    ensures
        let_names(body).no_duplicates(),
        forall|n: Seq<char>|
            let_names(body).contains(n) <==> exists|k: int|
                0 <= k < body.len() && declares(#[trigger] body[k], n),
    decreases body.len(),
{
    if body.len() > 0 {
        let prev = body.drop_last();
        law_locals_declared_once(prev);
        assert forall|n: Seq<char>|
            let_names(body).contains(n) <==> exists|k: int|
                0 <= k < body.len() && declares(#[trigger] body[k], n) by {
            if exists|k: int| 0 <= k < prev.len() && declares(#[trigger] prev[k], n) {
                let k = choose|k: int| 0 <= k < prev.len() && declares(#[trigger] prev[k], n);
                assert(body[k] == prev[k]);
            }
            if exists|k: int| 0 <= k < body.len() && declares(#[trigger] body[k], n) {
                let k = choose|k: int| 0 <= k < body.len() && declares(#[trigger] body[k], n);
                if k < prev.len() {
                    assert(prev[k] == body[k]);
                }
            }
            if let SStmt::Let(m, _) = body.last() {
                if !let_names(prev).contains(m) && m == n {
                    assert(let_names(body) == let_names(prev).push(m));
                    assert(let_names(body)[let_names(prev).len() as int] == n);
                }
            }
            if let_names(body).contains(n) && !let_names(prev).contains(n) {
                let i = choose|i: int| 0 <= i < let_names(body).len() && let_names(body)[i] == n;
                if i < let_names(prev).len() {
                    assert(let_names(prev)[i] == n);
                }
            }
            if let_names(prev).contains(n) {
                let i = choose|i: int| 0 <= i < let_names(prev).len() && let_names(prev)[i] == n;
                assert(let_names(body)[i] == n);
            }
        }
    }
}

/// The declarations of local variables.
pub open spec fn wat_locals(names: Seq<Seq<char>>) -> Seq<char>
    decreases names.len(),
{
    if names.len() == 0 {
        Seq::empty()
    } else {
        wat_locals(names.drop_last()) + "\t\t(local $"@ + names.last() + " i32)"@ + "\n"@
    }
}

/// The parameter declarations of a function.
pub open spec fn wat_params(ps: Seq<SParam>) -> Seq<char>
    decreases ps.len(),
{
    if ps.len() == 0 {
        Seq::empty()
    } else {
        wat_params(ps.drop_last()) + " (param $"@ + ps.last().name + " i32)"@
    }
}

/// The result declaration of a return type.
pub open spec fn wat_result(t: ASTType) -> Seq<char> {
    match t {
        ASTType::I32 => "(result i32)"@,
        ASTType::Void => ""@,
    }
}

/// The code of a function: its header, which exports it under its name,
/// one declaration for each local, then its statements.
pub open spec fn wat_func(f: SFunc) -> Seq<char> {
    "\t(func $"@ + f.name + " (export \""@ + f.name + "\")"@ + wat_params(f.params) + wat_result(
        f.return_type,
    ) + "\n"@ + wat_locals(let_names(f.body)) + wat_stmts(f.body) + "\t)\n"@
}

/// The code of a sequence of functions.
pub open spec fn wat_funcs(fs: Seq<SFunc>) -> Seq<char>
    decreases fs.len(),
{
    if fs.len() == 0 {
        Seq::empty()
    } else {
        wat_funcs(fs.drop_last()) + wat_func(fs.last())
    }
}

/// The WebAssembly text of a program: one module holding its functions.
pub open spec fn wat_program(fs: Seq<SFunc>) -> Seq<char> {
    "(module\n"@ + wat_funcs(fs) + ")\n"@
}

/// The one-character text of the digit `d`.
fn digit_text(d: u32) -> (t: &'static str)
    requires
        d < 10,
    ensures
        t@ == seq![digit_char(d as nat)],
{
    proof {
        reveal_strlit("0");
        reveal_strlit("1");
        reveal_strlit("2");
        reveal_strlit("3");
        reveal_strlit("4");
        reveal_strlit("5");
        reveal_strlit("6");
        reveal_strlit("7");
        reveal_strlit("8");
        reveal_strlit("9");
    }
    let t = if d == 0 {
        "0"
    } else if d == 1 {
        "1"
    } else if d == 2 {
        "2"
    } else if d == 3 {
        "3"
    } else if d == 4 {
        "4"
    } else if d == 5 {
        "5"
    } else if d == 6 {
        "6"
    } else if d == 7 {
        "7"
    } else if d == 8 {
        "8"
    } else {
        "9"
    };
    assert(t@ =~= seq![digit_char(d as nat)]);
    t
}

/// Appends the decimal digits of `n`.
fn append_digits(out: &mut String, n: u32)
    ensures
        final(out)@ == old(out)@ + decimal_digits(n as nat),
    decreases n,
{
    if n < 10 {
        out.append(digit_text(n));
    } else {
        append_digits(out, n / 10);
        out.append(digit_text(n % 10));
        assert(out@ =~= old(out)@ + decimal_digits(n as nat));
    }
}

/// The decimal text of `v`.
fn i32_text(v: i32) -> (s: String)
    ensures
        s@ == decimal(v as int),
{
    let mut s = String::new();
    let wide: i64 = v as i64;
    if wide < 0 {
        s.append("-");
        proof {
            reveal_strlit("-");
        }
        let n = (-wide) as u32;
        append_digits(&mut s, n);
        assert(s@ =~= decimal(v as int));
    } else {
        append_digits(&mut s, wide as u32);
        assert(s@ =~= decimal(v as int));
    }
    s
}

/// Lowers a parsed program to WebAssembly text.
pub struct Backend {
    program: Vec<ASTNode>,
    wat: String,
}

impl Backend {
    pub closed spec fn functions(&self) -> Seq<SFunc> {
        program_model(self.program@)
    }

    pub closed spec fn text(&self) -> Seq<char> {
        self.wat@
    }

    /// A backend for `program`, with no text written yet.
    pub fn new(program: Vec<ASTNode>) -> (b: Backend)
        ensures
            b.functions() == program_model(program@),
            b.text() == Seq::<char>::empty(),
    {
        Backend { program, wat: String::new() }
    }

    /// The text written so far.
    pub fn wat(&self) -> (s: &String)
        ensures
            s@ == self.text(),
    {
        &self.wat
    }

    /// The text written so far, taken out of the backend.
    pub fn into_wat(self) -> (s: String)
        ensures
            s@ == self.text(),
    {
        self.wat
    }

    /// Writes the module that holds every function of the program.
    pub fn compile_program(&mut self)
        ensures
            final(self).functions() == old(self).functions(),
            final(self).text() == old(self).text() + wat_program(old(self).functions()),
    {
        let ghost start = self.wat@;
        let ghost fs = self.functions();
        self.wat.append("(module\n");
        let mut program: Vec<ASTNode> = Vec::new();
        std::mem::swap(&mut program, &mut self.program);
        let n = program.len();
        let mut i: usize = 0;
        while i < n
            invariant
                n == program@.len(),
                0 <= i <= n,
                fs == program_model(program@),
                self.wat@ == start + "(module\n"@ + wat_funcs(fs.take(i as int)),
            decreases n - i,
        {
            match &program[i] {
                ASTNode::FuncDef(func) => self.compile_func_def(func),
            }
            assert(fs.take(i + 1).drop_last() =~= fs.take(i as int));
            assert(self.wat@ =~= start + "(module\n"@ + wat_funcs(fs.take(i + 1)));
            i = i + 1;
        }
        std::mem::swap(&mut program, &mut self.program);
        assert(fs.take(n as int) =~= fs);
        self.wat.append(")\n");
        assert(self.wat@ =~= start + wat_program(fs));
    }

    /// Writes one function.
    pub fn compile_func_def(&mut self, func: &ASTFuncDef)
        ensures
            final(self).functions() == old(self).functions(),
            final(self).text() == old(self).text() + wat_func(func.model()),
    {
        let ghost start = self.wat@;
        let ghost f = func.model();
        let mut params_wat = String::new();
        let np = func.params.len();
        let mut i: usize = 0;
        while i < np
            invariant
                np == func.params@.len(),
                0 <= i <= np,
                f == func.model(),
                self.functions() == old(self).functions(),
                self.wat@ == start,
                params_wat@ == wat_params(f.params.take(i as int)),
            decreases np - i,
        {
            params_wat.append(" (param $");
            params_wat.append(func.params[i].name.as_str());
            params_wat.append(" i32)");
            assert(f.params.take(i + 1).drop_last() =~= f.params.take(i as int));
            assert(params_wat@ =~= wat_params(f.params.take(i + 1)));
            i = i + 1;
        }
        assert(f.params.take(np as int) =~= f.params);
        self.wat.append("\t(func $");
        self.wat.append(func.name.as_str());
        self.wat.append(" (export \"");
        self.wat.append(func.name.as_str());
        self.wat.append("\")");
        self.wat.append(params_wat.as_str());
        let result = self.type_to_string(&func.return_type);
        self.wat.append(result.as_str());
        self.wat.append("\n");
        let ghost header = self.wat@;
        let mut declared_locals: Vec<String> = Vec::new();
        let nb = func.body.len();
        let mut j: usize = 0;
        while j < nb
            invariant
                nb == func.body@.len(),
                0 <= j <= nb,
                f == func.model(),
                f.body == stmt_models(func.body@),
                self.functions() == old(self).functions(),
                names_view(declared_locals@) == let_names(f.body.take(j as int)),
                self.wat@ == header + wat_locals(let_names(f.body.take(j as int))),
            decreases nb - j,
        {
            let ghost before = self.wat@;
            assert(f.body.take(j + 1).drop_last() =~= f.body.take(j as int));
            assert(f.body.take(j + 1).last() == func.body@[j as int].model());
            if let ASTStmt::LetStmt(variable) = &func.body[j] {
                if !contains_name(&declared_locals, &variable.var_name) {
                    let ghost prev = declared_locals@;
                    declared_locals.push(variable.var_name.clone());
                    assert(names_view(declared_locals@) =~= names_view(prev).push(
                        variable.var_name@,
                    ));
                    self.wat.append("\t\t(local $");
                    self.wat.append(variable.var_name.as_str());
                    self.wat.append(" i32)");
                    self.wat.append("\n");
                    assert(self.wat@ =~= before + "\t\t(local $"@ + variable.var_name@ + " i32)"@
                        + "\n"@);
                    let ghost ln = let_names(f.body.take(j as int));
                    let ghost ln2 = let_names(f.body.take(j + 1));
                    assert(ln2 == ln.push(variable.var_name@));
                    assert(ln2.drop_last() =~= ln);
                } else {
                    assert(let_names(f.body.take(j + 1)) == let_names(f.body.take(j as int)));
                }
            } else {
                assert(let_names(f.body.take(j + 1)) == let_names(f.body.take(j as int)));
            }
            assert(self.wat@ =~= header + wat_locals(let_names(f.body.take(j + 1))));
            j = j + 1;
        }
        assert(f.body.take(nb as int) =~= f.body);
        let ghost with_locals = self.wat@;
        let mut k: usize = 0;
        while k < nb
            invariant
                nb == func.body@.len(),
                0 <= k <= nb,
                f == func.model(),
                f.body == stmt_models(func.body@),
                self.functions() == old(self).functions(),
                self.wat@ == with_locals + wat_stmts(f.body.take(k as int)),
            decreases nb - k,
        {
            self.compile_stmt(&func.body[k]);
            assert(f.body.take(k + 1).drop_last() =~= f.body.take(k as int));
            assert(self.wat@ =~= with_locals + wat_stmts(f.body.take(k + 1)));
            k = k + 1;
        }
        assert(f.body.take(nb as int) =~= f.body);
        self.wat.append("\t)\n");
        assert(self.wat@ =~= start + wat_func(f));
    }

    /// Writes one statement.
    pub fn compile_stmt(&mut self, stmt: &ASTStmt)
        ensures
            final(self).functions() == old(self).functions(),
            final(self).text() == old(self).text() + wat_stmt(stmt.model()),
    {
        match stmt {
            ASTStmt::LetStmt(variable) => {
                self.compile_expr(&variable.value);
                self.wat.append("\t\tlocal.set $");
                self.wat.append(variable.var_name.as_str());
                self.wat.append("\n");
                assert(self.wat@ =~= old(self).wat@ + wat_stmt(stmt.model()));
            },
            ASTStmt::ReturnStmt(ret) => match ret.function_ret_type {
                ASTType::Void => {
                    self.wat.append("\t\treturn\n");
                },
                ASTType::I32 => {
                    self.compile_expr(&ret.value);
                    self.wat.append("\t\treturn\n");
                    assert(self.wat@ =~= old(self).wat@ + wat_stmt(stmt.model()));
                },
            },
            ASTStmt::AssignmentStmt(variable) => {
                self.compile_expr(&variable.value);
                self.wat.append("\t\tlocal.set $");
                self.wat.append(variable.var_name.as_str());
                self.wat.append("\n");
                assert(self.wat@ =~= old(self).wat@ + wat_stmt(stmt.model()));
            },
        }
    }

    /// Writes the stack code of an expression.
    pub fn compile_expr(&mut self, expr: &ASTExpr)
        ensures
            final(self).functions() == old(self).functions(),
            final(self).text() == old(self).text() + wat_expr(expr.model()),
        decreases expr,
    {
        match expr {
            ASTExpr::Int(val) => {
                self.wat.append("\t\ti32.const ");
                let text = i32_text(*val);
                self.wat.append(text.as_str());
                self.wat.append("\n");
                assert(self.wat@ =~= old(self).wat@ + wat_expr(expr.model()));
            },
            ASTExpr::Variable(name) => {
                self.wat.append("\t\tlocal.get $");
                self.wat.append(name.as_str());
                self.wat.append("\n");
                assert(self.wat@ =~= old(self).wat@ + wat_expr(expr.model()));
            },
            ASTExpr::Binary(left, op, right) => {
                self.compile_expr(left);
                self.compile_expr(right);
                let instr = match op {
                    BinaryOp::Add => "\t\ti32.add\n",
                    BinaryOp::Sub => "\t\ti32.sub\n",
                    BinaryOp::Mul => "\t\ti32.mul\n",
                    BinaryOp::Div => "\t\ti32.div_s\n",
                };
                self.wat.append(instr);
                assert(self.wat@ =~= old(self).wat@ + wat_expr(expr.model()));
            },
            ASTExpr::Call(func_name, args) => {
                let ghost start = self.wat@;
                let n = args.len();
                let mut i: usize = 0;
                #[verifier::loop_isolation(false)]
                while i < n
                    invariant
                        n == args@.len(),
                        0 <= i <= n,
                        self.functions() == old(self).functions(),
                        start == old(self).wat@,
                        self.wat@ == start + wat_args(models_of(args@.take(i as int))),
                    decreases n - i,
                {
                    proof {
                        assert(decreases_to!(args => args@));
                        assert(decreases_to!(args@ => args@[i as int]));
                    }
                    self.compile_expr(&args[i]);
                    assert(args@.take(i + 1).drop_last() =~= args@.take(i as int));
                    assert(args@.take(i + 1).last() == args@[i as int]);
                    let ghost ms = models_of(args@.take(i as int));
                    let ghost ms2 = models_of(args@.take(i + 1));
                    assert(ms2 == ms.push(args@[i as int].model()));
                    assert(ms2.drop_last() =~= ms);
                    assert(wat_args(ms2) == wat_args(ms) + wat_expr(args@[i as int].model()));
                    assert(self.wat@ =~= start + wat_args(models_of(args@.take(i + 1))));
                    i = i + 1;
                }
                assert(args@.take(n as int) =~= args@);
                self.wat.append("\t\tcall $");
                self.wat.append(func_name.as_str());
                self.wat.append("\n");
                assert(self.wat@ =~= old(self).wat@ + wat_expr(expr.model()));
            },
        }
    }

    /// The result declaration of a return type.
    fn type_to_string(&self, t: &ASTType) -> (s: String)
        ensures
            s@ == wat_result(*t),
    {
        match t {
            ASTType::I32 => String::from_str("(result i32)"),
            ASTType::Void => String::from_str(""),
        }
    }
}

/// The texts of a sequence of names.
pub open spec fn names_view(v: Seq<String>) -> Seq<Seq<char>> {
    Seq::new(v.len(), |k: int| v[k]@)
}

/// Whether `name` is among `names`.
fn contains_name(names: &Vec<String>, name: &String) -> (r: bool)
    ensures
        r == names_view(names@).contains(name@),
{
    let mut i: usize = 0;
    while i < names.len()
        invariant
            0 <= i <= names@.len(),
            forall|j: int| 0 <= j < i ==> names@[j]@ != name@,
        decreases names@.len() - i,
    {
        if names[i] == *name {
            assert(names_view(names@)[i as int] == name@);
            return true;
        }
        i = i + 1;
    }
    assert(!names_view(names@).contains(name@)) by {
        if names_view(names@).contains(name@) {
            let j = choose|j: int| 0 <= j < names@.len() && names_view(names@)[j] == name@;
            assert(names@[j]@ == name@);
        }
    }
    false
}

} // verus!
