//! What the parser's checks guarantee of every program it accepts: each
//! name that is used is in scope, each call matches the number of
//! parameters of a function declared by then, each `return` fits the
//! function's return type, and each parameter is an `i32`.
use vstd::prelude::*;

use crate::ast::{ASTType, SExpr, SFunc, SParam, SStmt};
use crate::backend::let_names;
use crate::grammar::{
    advance, compile_spec, declare, p_args, p_body, p_call, p_expr, p_fn_def, p_fn_rest, p_loop,
    p_params, p_primary, p_program, p_ret_type, p_stmt, tok_at, Scope, Signatures,
};
use crate::lexer::SLexStep;
use crate::token::precedence;

verus! {

/// Every variable of `e` is in `vars`, every call names a function of
/// `funcs` with as many arguments as it has parameters.
pub open spec fn expr_scoped(e: SExpr, vars: Scope, funcs: Signatures) -> bool
    decreases e,
{
    match e {
        SExpr::Int(_) => true,
        SExpr::Var(n) => vars.contains_key(n),
        SExpr::Binary(l, _, r) => expr_scoped(*l, vars, funcs) && expr_scoped(*r, vars, funcs),
        SExpr::Call(n, args) => funcs.contains_key(n) && funcs[n] == args.len() && args_scoped(
            args,
            vars,
            funcs,
        ),
    }
}

/// Every expression of `args` is scoped.
pub open spec fn args_scoped(args: Seq<SExpr>, vars: Scope, funcs: Signatures) -> bool
    decreases args,
{
    if args.len() == 0 {
        true
    } else {
        args_scoped(args.drop_last(), vars, funcs) && expr_scoped(args.last(), vars, funcs)
    }
}

/// A statement is scoped in a function returning `rt`: its value is
/// scoped, an assignment's target is in scope, and a `return` has the
/// function's type (with no value in a `void` function).
pub open spec fn stmt_scoped(s: SStmt, rt: ASTType, vars: Scope, funcs: Signatures) -> bool {
    match s {
        SStmt::Let(_, e) => expr_scoped(e, vars, funcs),
        SStmt::Assign(n, e) => vars.contains_key(n) && expr_scoped(e, vars, funcs),
        SStmt::Return(e, t) => t == rt && (t == ASTType::I32 ==> expr_scoped(e, vars, funcs)) && (t
            == ASTType::Void ==> e == SExpr::Int(0)),
    }
}

/// The scope after the statements `s`, starting from `vars`: each `let`
/// declares its name.
pub open spec fn scope_after(s: Seq<SStmt>, vars: Scope) -> Scope
    decreases s.len(),
{
    if s.len() == 0 {
        vars
    } else {
        let before = scope_after(s.drop_last(), vars);
        match s.last() {
            SStmt::Let(n, _) => declare(before, n, ASTType::I32),
            _ => before,
        }
    }
}

/// Each statement of `s` is scoped in the scope that the statements before
/// it leave.
pub open spec fn stmts_scoped(s: Seq<SStmt>, rt: ASTType, vars: Scope, funcs: Signatures) -> bool
    decreases s.len(),
{
    if s.len() == 0 {
        true
    } else {
        stmts_scoped(s.drop_last(), rt, vars, funcs) && stmt_scoped(
            s.last(),
            rt,
            scope_after(s.drop_last(), vars),
            funcs,
        )
    }
}

/// The scope that parameters open: each declared as an `i32`.
pub open spec fn params_scope(ps: Seq<SParam>) -> Scope
    decreases ps.len(),
{
    if ps.len() == 0 {
        Map::empty()
    } else {
        declare(params_scope(ps.drop_last()), ps.last().name, ASTType::I32)
    }
}

/// The functions that `fs` declares, with their numbers of parameters; a
/// later definition of a name replaces an earlier one.
pub open spec fn signatures(fs: Seq<SFunc>) -> Signatures
    decreases fs.len(),
{
    if fs.len() == 0 {
        Map::empty()
    } else {
        signatures(fs.drop_last()).insert(fs.last().name, fs.last().params.len())
    }
}

/// A function is scoped given the functions declared before it: its
/// parameters are `i32`, and its body is scoped in the scope of its
/// parameters, where it may call itself.
pub open spec fn func_scoped(f: SFunc, before: Signatures) -> bool {
    &&& forall|k: int| 0 <= k < f.params.len() ==> (#[trigger] f.params[k]).data_type == ASTType::I32
    &&& stmts_scoped(
        f.body,
        f.return_type,
        params_scope(f.params),
        before.insert(f.name, f.params.len()),
    )
}

/// Every function of a program is scoped given those defined before it.
pub open spec fn program_scoped(fs: Seq<SFunc>) -> bool {
    forall|k: int| 0 <= k < fs.len() ==> func_scoped(#[trigger] fs[k], signatures(fs.take(k)))
}

proof fn lemma_expr_scoped(ts: Seq<SLexStep>, i: int, minp: u32, vars: Scope, funcs: Signatures)
    ensures
        p_expr(ts, i, minp, vars, funcs) matches Ok((e, _)) ==> expr_scoped(e, vars, funcs),
    decreases ts.len() - i, 2nat,
{
    lemma_primary_scoped(ts, i, vars, funcs);
    if let Ok((left, j)) = p_primary(ts, i, vars, funcs) {
        if i < j <= ts.len() {
            lemma_loop_scoped(ts, j, minp, left, vars, funcs);
        }
    }
}

proof fn lemma_loop_scoped(
    ts: Seq<SLexStep>,
    j: int,
    minp: u32,
    left: SExpr,
    vars: Scope,
    funcs: Signatures,
)
    requires
        expr_scoped(left, vars, funcs),
    ensures
        p_loop(ts, j, minp, left, vars, funcs) matches Ok((e, _)) ==> expr_scoped(e, vars, funcs),
    decreases ts.len() - j, 0nat,
{
    let t = tok_at(ts, j);
    let prec = precedence(t);
    if !(prec == 0 || prec <= minp) {
        if let Ok(k) = advance(ts, j) {
            lemma_expr_scoped(ts, k, prec, vars, funcs);
            if let Ok((right, m)) = p_expr(ts, k, prec, vars, funcs) {
                if j < m <= ts.len() {
                    let e = SExpr::Binary(Box::new(left), crate::grammar::binop_of(t), Box::new(right));
                    lemma_loop_scoped(ts, m, minp, e, vars, funcs);
                }
            }
        }
    }
}

proof fn lemma_primary_scoped(ts: Seq<SLexStep>, i: int, vars: Scope, funcs: Signatures)
    ensures
        p_primary(ts, i, vars, funcs) matches Ok((e, _)) ==> expr_scoped(e, vars, funcs),
    decreases ts.len() - i, 1nat,
{
    if let Ok(k) = advance(ts, i) {
        if tok_at(ts, i) is Ident && tok_at(ts, k) is OpenParen {
            lemma_call_scoped(ts, k, tok_at(ts, i)->Ident_0, vars, funcs);
        }
        if tok_at(ts, i) is OpenParen {
            lemma_expr_scoped(ts, k, 0, vars, funcs);
        }
    }
}

proof fn lemma_call_scoped(ts: Seq<SLexStep>, k: int, name: Seq<char>, vars: Scope, funcs: Signatures)
    ensures
        p_call(ts, k, name, vars, funcs) matches Ok((e, _)) ==> expr_scoped(e, vars, funcs),
    decreases ts.len() - k, 1nat,
{
    assert(args_scoped(Seq::<SExpr>::empty(), vars, funcs));
    if let Ok(k2) = advance(ts, k) {
        if !(tok_at(ts, k2) is CloseParen) {
            lemma_args_scoped(ts, k2, Seq::empty(), vars, funcs);
        }
    }
}

proof fn lemma_args_scoped(
    ts: Seq<SLexStep>,
    i: int,
    acc: Seq<SExpr>,
    vars: Scope,
    funcs: Signatures,
)
    requires
        args_scoped(acc, vars, funcs),
    ensures
        p_args(ts, i, acc, vars, funcs) matches Ok((args, _)) ==> args_scoped(args, vars, funcs),
    decreases ts.len() - i, 3nat,
{
    lemma_expr_scoped(ts, i, 0, vars, funcs);
    if let Ok((e, m)) = p_expr(ts, i, 0, vars, funcs) {
        let acc2 = acc.push(e);
        assert(acc2.drop_last() =~= acc);
        if tok_at(ts, m) is Comma {
            if let Ok(m2) = advance(ts, m) {
                if i < m2 <= ts.len() {
                    lemma_args_scoped(ts, m2, acc2, vars, funcs);
                }
            }
        }
    }
}

/// What a statement does to the scope.
pub open spec fn scope_step(s: SStmt, vars: Scope) -> Scope {
    match s {
        SStmt::Let(n, _) => declare(vars, n, ASTType::I32),
        _ => vars,
    }
}

proof fn lemma_stmt_scoped(ts: Seq<SLexStep>, i: int, rt: ASTType, vars: Scope, funcs: Signatures)
    ensures
        p_stmt(ts, i, rt, vars, funcs) matches Ok((st, _, v)) ==> stmt_scoped(st, rt, vars, funcs)
            && v == scope_step(st, vars),
{
    if let Ok(k) = advance(ts, i) {
        lemma_expr_scoped(ts, k, 0, vars, funcs);
        if let Ok(k2) = advance(ts, k) {
            if let Ok(k3) = advance(ts, k2) {
                lemma_expr_scoped(ts, k3, 0, vars, funcs);
            }
            lemma_expr_scoped(ts, k2, 0, vars, funcs);
        }
    }
}

proof fn lemma_body_scoped(
    ts: Seq<SLexStep>,
    i: int,
    rt: ASTType,
    start: Scope,
    vars: Scope,
    funcs: Signatures,
    acc: Seq<SStmt>,
)
    requires
        stmts_scoped(acc, rt, start, funcs),
        scope_after(acc, start) == vars,
    ensures
        p_body(ts, i, rt, vars, funcs, acc) matches Ok((b, _, v)) ==> stmts_scoped(
            b,
            rt,
            start,
            funcs,
        ) && scope_after(b, start) == v,
    decreases ts.len() - i,
{
    if !(tok_at(ts, i) is CloseCurly) {
        lemma_stmt_scoped(ts, i, rt, vars, funcs);
        if let Ok((st, m, v)) = p_stmt(ts, i, rt, vars, funcs) {
            let acc2 = acc.push(st);
            assert(acc2.drop_last() =~= acc);
            assert(scope_after(acc2, start) == v);
            if i < m <= ts.len() {
                lemma_body_scoped(ts, m, rt, start, v, funcs, acc2);
            }
        }
    }
}

/// Every parameter is an `i32`.
pub open spec fn params_i32(ps: Seq<SParam>) -> bool {
    forall|k: int| 0 <= k < ps.len() ==> (#[trigger] ps[k]).data_type == ASTType::I32
}

proof fn lemma_params_scoped(ts: Seq<SLexStep>, i: int, acc: Seq<SParam>, vars: Scope)
    requires
        params_i32(acc),
        params_scope(acc) == vars,
    ensures
        p_params(ts, i, acc, vars) matches Ok((ps, _, v)) ==> params_i32(ps) && params_scope(ps)
            == v,
    decreases ts.len() - i,
{
    if let Ok(k) = advance(ts, i) {
        if let Ok(k2) = advance(ts, k) {
            if let Ok(k3) = advance(ts, k2) {
                if tok_at(ts, i) is Ident {
                    let acc2 = acc.push(
                        SParam { name: tok_at(ts, i)->Ident_0, data_type: ASTType::I32 },
                    );
                    assert(acc2.drop_last() =~= acc);
                    let v2 = declare(vars, tok_at(ts, i)->Ident_0, ASTType::I32);
                    if let Ok(k4) = advance(ts, k3) {
                        lemma_params_scoped(ts, k4, acc2, v2);
                    }
                }
            }
        }
    }
}

proof fn lemma_fn_rest_scoped(
    ts: Seq<SLexStep>,
    m: int,
    name: Seq<char>,
    params: Seq<SParam>,
    vars: Scope,
    funcs: Signatures,
)
    requires
        params_i32(params),
        params_scope(params) == vars,
    ensures
        p_fn_rest(ts, m, name, params, vars, funcs) matches Ok((f, _, v, fs)) ==> {
            &&& f.name == name
            &&& f.params == params
            &&& fs == funcs.insert(name, params.len())
            &&& func_scoped(f, funcs)
            &&& v == scope_after(f.body, params_scope(params))
        },
{
    if let Ok(m2) = advance(ts, m) {
        let funcs2 = funcs.insert(name, params.len());
        if let Ok((rt, m3)) = p_ret_type(ts, m2) {
            if let Ok(m4) = advance(ts, m3) {
                assert(stmts_scoped(Seq::<SStmt>::empty(), rt, vars, funcs2));
                assert(scope_after(Seq::<SStmt>::empty(), vars) == vars);
                lemma_body_scoped(ts, m4, rt, vars, vars, funcs2, Seq::empty());
            }
        }
    }
}

pub proof fn lemma_fn_def_scoped(ts: Seq<SLexStep>, i: int, funcs: Signatures)
    ensures
        p_fn_def(ts, i, funcs) matches Ok((f, _, v, fs)) ==> fs == funcs.insert(
            f.name,
            f.params.len(),
        ) && func_scoped(f, funcs) && v == scope_after(f.body, params_scope(f.params)),
{
    reveal(p_fn_def);
    assert(params_i32(Seq::<SParam>::empty()));
    assert(params_scope(Seq::<SParam>::empty()) == Map::<Seq<char>, ASTType>::empty());
    if let Ok(k) = advance(ts, i) {
        if let Ok(k2) = advance(ts, k) {
            if let Ok(k3) = advance(ts, k2) {
                if tok_at(ts, k) is Ident {
                    let name = tok_at(ts, k)->Ident_0;
                    if tok_at(ts, k3) is CloseParen {
                        lemma_fn_rest_scoped(ts, k3, name, Seq::empty(), Map::empty(), funcs);
                    } else {
                        lemma_params_scoped(ts, k3, Seq::empty(), Map::empty());
                        if let Ok((params, m, vars)) = p_params(
                            ts,
                            k3,
                            Seq::empty(),
                            Map::empty(),
                        ) {
                            lemma_fn_rest_scoped(ts, m, name, params, vars, funcs);
                        }
                    }
                }
            }
        }
    }
}

proof fn lemma_program_scoped(ts: Seq<SLexStep>, i: int, funcs: Signatures, prog: Seq<SFunc>)
    requires
        program_scoped(prog),
        signatures(prog) == funcs,
    ensures
        p_program(ts, i, funcs, prog) matches Ok(p) ==> program_scoped(p),
    decreases ts.len() - i,
{
    if tok_at(ts, i) is Fn {
        lemma_fn_def_scoped(ts, i, funcs);
        if let Ok((f, m, _, fs)) = p_fn_def(ts, i, funcs) {
            if let Ok(m2) = advance(ts, m) {
                let prog2 = prog.push(f);
                assert(prog2.drop_last() =~= prog);
                assert forall|k: int| 0 <= k < prog2.len() implies func_scoped(
                    #[trigger] prog2[k],
                    signatures(prog2.take(k)),
                ) by {
                    if k < prog.len() {
                        assert(prog2.take(k) =~= prog.take(k));
                    } else {
                        assert(prog2.take(k) =~= prog);
                    }
                }
                if i < m2 <= ts.len() {
                    lemma_program_scoped(ts, m2, fs, prog2);
                }
            }
        }
    }
}

/// Every program that the compiler accepts is well scoped: each variable
/// used is a parameter or was declared by a `let` before, each assignment
/// targets such a variable, each call names a function defined before or
/// the function being defined and passes as many arguments as it has
/// parameters, each `return` fits its function's return type, and each
/// parameter is an `i32`.
pub proof fn theorem_accepted_programs_are_scoped(src: Seq<u8>)
    requires
        compile_spec(src) is Ok,
    ensures
        program_scoped(compile_spec(src)->Ok_0),
{
    let ts = crate::lexer::token_stream(src, 0, 1);
    assert(signatures(Seq::<SFunc>::empty()) == Map::<Seq<char>, nat>::empty());
    if ts.len() > 0 {
        lemma_program_scoped(ts, 0, Map::empty(), Seq::empty());
    }
}

/// Every variable that `e` reads is among `names`.
pub open spec fn expr_reads_within(e: SExpr, names: Set<Seq<char>>) -> bool
    decreases e,
{
    match e {
        SExpr::Int(_) => true,
        SExpr::Var(n) => names.contains(n),
        SExpr::Binary(l, _, r) => expr_reads_within(*l, names) && expr_reads_within(*r, names),
        SExpr::Call(_, args) => args_read_within(args, names),
    }
}

pub open spec fn args_read_within(args: Seq<SExpr>, names: Set<Seq<char>>) -> bool
    decreases args,
{
    if args.len() == 0 {
        true
    } else {
        args_read_within(args.drop_last(), names) && expr_reads_within(args.last(), names)
    }
}

/// Every variable that `s` reads or writes is among `names`.
pub open spec fn stmt_within(s: SStmt, names: Set<Seq<char>>) -> bool {
    match s {
        SStmt::Let(n, e) => names.contains(n) && expr_reads_within(e, names),
        SStmt::Assign(n, e) => names.contains(n) && expr_reads_within(e, names),
        SStmt::Return(e, _) => expr_reads_within(e, names),
    }
}

/// The locals that the text of `f` declares: its parameters and the names
/// of its `let` statements.
pub open spec fn declared_locals(f: SFunc) -> Set<Seq<char>> {
    Set::new(|n: Seq<char>| exists|k: int| 0 <= k < f.params.len() && f.params[k].name == n).union(
        let_names(f.body).to_set(),
    )
}

proof fn lemma_expr_within(e: SExpr, vars: Scope, funcs: Signatures, names: Set<Seq<char>>)
    requires
        expr_scoped(e, vars, funcs),
        forall|n: Seq<char>| vars.contains_key(n) ==> names.contains(n),
    ensures
        expr_reads_within(e, names),
    decreases e,
{
    match e {
        SExpr::Binary(l, _, r) => {
            lemma_expr_within(*l, vars, funcs, names);
            lemma_expr_within(*r, vars, funcs, names);
        },
        SExpr::Call(_, args) => {
            lemma_args_within(args, vars, funcs, names);
        },
        _ => {},
    }
}

proof fn lemma_args_within(args: Seq<SExpr>, vars: Scope, funcs: Signatures, names: Set<Seq<char>>)
    requires
        args_scoped(args, vars, funcs),
        forall|n: Seq<char>| vars.contains_key(n) ==> names.contains(n),
    ensures
        args_read_within(args, names),
    decreases args,
{
    if args.len() > 0 {
        lemma_args_within(args.drop_last(), vars, funcs, names);
        lemma_expr_within(args.last(), vars, funcs, names);
    }
}

proof fn lemma_params_scope_names(ps: Seq<SParam>, n: Seq<char>)
    requires
        params_scope(ps).contains_key(n),
    ensures
        exists|k: int| 0 <= k < ps.len() && ps[k].name == n,
    decreases ps.len(),
{
    if ps.len() > 0 && n != ps.last().name {
        lemma_params_scope_names(ps.drop_last(), n);
        let k = choose|k: int| 0 <= k < ps.len() - 1 && ps.drop_last()[k].name == n;
        assert(ps[k] == ps.drop_last()[k]);
    } else if ps.len() > 0 {
        assert(ps[ps.len() - 1].name == n);
    }
}

/// A name in scope after some of the statements was a parameter or is
/// named by a `let` among them.
proof fn lemma_scope_after_names(s: Seq<SStmt>, ps: Seq<SParam>, n: Seq<char>)
    requires
        scope_after(s, params_scope(ps)).contains_key(n),
    ensures
        (exists|k: int| 0 <= k < ps.len() && ps[k].name == n) || let_names(s).contains(n),
    decreases s.len(),
{
    if s.len() == 0 {
        lemma_params_scope_names(ps, n);
    } else {
        let prev = s.drop_last();
        let before = scope_after(prev, params_scope(ps));
        lemma_let_names_grow(s);
        if before.contains_key(n) {
            lemma_scope_after_names(prev, ps, n);
        } else {
            if let SStmt::Let(m, _) = s.last() {
                assert(m == n);
                if !let_names(prev).contains(m) {
                    assert(let_names(s)[let_names(s).len() - 1] == n);
                }
            }
        }
    }
}

/// The `let` names of a prefix stay among those of the whole.
proof fn lemma_let_names_grow(s: Seq<SStmt>)
    requires
        s.len() > 0,
    ensures
        forall|n: Seq<char>| let_names(s.drop_last()).contains(n) ==> let_names(s).contains(n),
{
    let prev = let_names(s.drop_last());
    assert forall|n: Seq<char>| prev.contains(n) implies let_names(s).contains(n) by {
        let i = choose|i: int| 0 <= i < prev.len() && prev[i] == n;
        assert(let_names(s)[i] == n);
    }
}

proof fn lemma_stmts_within(
    s: Seq<SStmt>,
    rt: ASTType,
    ps: Seq<SParam>,
    funcs: Signatures,
    names: Set<Seq<char>>,
)
    requires
        stmts_scoped(s, rt, params_scope(ps), funcs),
        forall|n: Seq<char>|
            (exists|k: int| 0 <= k < ps.len() && ps[k].name == n) ==> names.contains(n),
        forall|n: Seq<char>| let_names(s).contains(n) ==> names.contains(n),
    ensures
        forall|k: int| 0 <= k < s.len() ==> stmt_within(#[trigger] s[k], names),
    decreases s.len(),
{
    if s.len() > 0 {
        let prev = s.drop_last();
        lemma_let_names_grow(s);
        lemma_stmts_within(prev, rt, ps, funcs, names);
        let vars = scope_after(prev, params_scope(ps));
        assert forall|n: Seq<char>| vars.contains_key(n) implies names.contains(n) by {
            lemma_scope_after_names(prev, ps, n);
        }
        let last = s.last();
        match last {
            SStmt::Let(n, e) => {
                lemma_expr_within(e, vars, funcs, names);
                if !let_names(prev).contains(n) {
                    assert(let_names(s)[let_names(s).len() - 1] == n);
                }
            },
            SStmt::Assign(n, e) => {
                lemma_expr_within(e, vars, funcs, names);
            },
            SStmt::Return(e, t) => {
                if t == ASTType::I32 {
                    lemma_expr_within(e, vars, funcs, names);
                }
            },
        }
        assert forall|k: int| 0 <= k < s.len() implies stmt_within(#[trigger] s[k], names) by {
            if k < s.len() - 1 {
                assert(s[k] == prev[k]);
            }
        }
    }
}

/// In every program the compiler accepts, each variable that a function
/// reads or writes is one of the locals its WebAssembly text declares: a
/// parameter or a `let` name.
pub proof fn theorem_locals_cover_uses(src: Seq<u8>)
    requires
        compile_spec(src) is Ok,
    ensures
        forall|i: int, k: int|
            0 <= i < compile_spec(src)->Ok_0.len() && 0 <= k < compile_spec(src)->Ok_0[i].body.len()
                ==> stmt_within(
                #[trigger] compile_spec(src)->Ok_0[i].body[k],
                declared_locals(compile_spec(src)->Ok_0[i]),
            ),
{
    theorem_accepted_programs_are_scoped(src);
    let p = compile_spec(src)->Ok_0;
    assert forall|i: int, k: int| 0 <= i < p.len() && 0 <= k < p[i].body.len() implies stmt_within(
        #[trigger] p[i].body[k],
        declared_locals(p[i]),
    ) by {
        let f = p[i];
        assert(func_scoped(f, signatures(p.take(i))));
        let names = declared_locals(f);
        assert forall|n: Seq<char>|
            (exists|j: int| 0 <= j < f.params.len() && f.params[j].name == n) implies names.contains(
            n,
        ) by {}
        assert forall|n: Seq<char>| let_names(f.body).contains(n) implies names.contains(n) by {}
        lemma_stmts_within(
            f.body,
            f.return_type,
            f.params,
            signatures(p.take(i)).insert(f.name, f.params.len()),
            names,
        );
    }
}

proof fn lemma_params_scope_exact(ps: Seq<SParam>, n: Seq<char>)
    ensures
        params_scope(ps).contains_key(n) <==> exists|k: int| 0 <= k < ps.len() && ps[k].name == n,
        params_scope(ps).contains_key(n) ==> params_scope(ps)[n] == ASTType::I32,
    decreases ps.len(),
{
    if ps.len() > 0 {
        let prev = ps.drop_last();
        lemma_params_scope_exact(prev, n);
        if exists|k: int| 0 <= k < prev.len() && prev[k].name == n {
            let k = choose|k: int| 0 <= k < prev.len() && prev[k].name == n;
            assert(ps[k] == prev[k]);
        }
        if exists|k: int| 0 <= k < ps.len() && ps[k].name == n {
            let k = choose|k: int| 0 <= k < ps.len() && ps[k].name == n;
            if k < prev.len() {
                assert(prev[k] == ps[k]);
            }
        }
    }
}

proof fn lemma_scope_after_exact(s: Seq<SStmt>, ps: Seq<SParam>, n: Seq<char>)
    ensures
        scope_after(s, params_scope(ps)).contains_key(n) <==> (exists|k: int|
            0 <= k < ps.len() && ps[k].name == n) || let_names(s).contains(n),
        scope_after(s, params_scope(ps)).contains_key(n) ==> scope_after(s, params_scope(ps))[n]
            == ASTType::I32,
    decreases s.len(),
{
    if s.len() == 0 {
        lemma_params_scope_exact(ps, n);
    } else {
        let prev = s.drop_last();
        lemma_scope_after_exact(prev, ps, n);
        lemma_let_names_grow(s);
        let before = scope_after(prev, params_scope(ps));
        if let SStmt::Let(m, _) = s.last() {
            if !let_names(prev).contains(m) {
                assert(let_names(s) == let_names(prev).push(m));
                assert(let_names(s)[let_names(s).len() - 1] == m);
                if let_names(s).contains(n) && n != m {
                    let i = choose|i: int| 0 <= i < let_names(s).len() && let_names(s)[i] == n;
                    assert(let_names(prev)[i] == n);
                }
            }
        }
    }
}

/// After a function definition, the scope holds exactly its parameters and
/// the names its `let` statements declare, every one an `i32`: nothing of
/// an earlier function remains.
pub proof fn law_function_scope(ts: Seq<SLexStep>, i: int, funcs: Signatures, n: Seq<char>)
    requires
        p_fn_def(ts, i, funcs) is Ok,
    ensures
        ({
            let (f, _, v, _) = p_fn_def(ts, i, funcs)->Ok_0;
            &&& v.contains_key(n) <==> (exists|k: int| 0 <= k < f.params.len() && f.params[k].name
                == n) || let_names(f.body).contains(n)
            &&& v.contains_key(n) ==> v[n] == ASTType::I32
        }),
{
    lemma_fn_def_scoped(ts, i, funcs);
    let (f, _, v, _) = p_fn_def(ts, i, funcs)->Ok_0;
    lemma_scope_after_exact(f.body, f.params, n);
}

} // verus!
