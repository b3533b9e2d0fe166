use vstd::prelude::*;

verus! {

/// An arithmetic operator of a binary expression.
#[derive(Debug, Clone, Copy, PartialEq, Eq, Structural)]
pub enum BinaryOp {
    Add,
    Sub,
    Mul,
    Div,
}

/// The types of the language: `void` (only as a return type) and `i32`.
#[derive(Debug, Clone, Copy, PartialEq, Eq, Structural)]
pub enum ASTType {
    Void,
    I32,
}

/// An expression.
#[derive(Debug)]
pub enum ASTExpr {
    Int(i32),
    Variable(String),
    Binary(Box<ASTExpr>, BinaryOp, Box<ASTExpr>),
    Call(String, Vec<ASTExpr>),
}

impl Default for ASTExpr {
    /// The literal `0`, which stands in a `void` function's `return`.
    fn default() -> (e: ASTExpr)
        ensures
            e.model() == SExpr::Int(0),
    {
        ASTExpr::Int(0)
    }
}

impl Default for ASTType {
    fn default() -> (t: ASTType)
        ensures
            t == ASTType::Void,
    {
        ASTType::Void
    }
}

/// The mathematical model of an expression: names are character sequences.
pub enum SExpr {
    Int(i32),
    Var(Seq<char>),
    Binary(Box<SExpr>, BinaryOp, Box<SExpr>),
    Call(Seq<char>, Seq<SExpr>),
}

impl ASTExpr {
    pub open spec fn model(&self) -> SExpr
        decreases self,
    {
        match self {
            ASTExpr::Int(v) => SExpr::Int(*v),
            ASTExpr::Variable(n) => SExpr::Var(n@),
            ASTExpr::Binary(l, op, r) => SExpr::Binary(Box::new(l.model()), *op, Box::new(r.model())),
            ASTExpr::Call(n, args) => SExpr::Call(n@, models_of(args@)),
        }
    }
}

pub open spec fn models_of(args: Seq<ASTExpr>) -> Seq<SExpr>
    decreases args,
{
    if args.len() == 0 {
        seq![]
    } else {
        models_of(args.drop_last()).push(args.last().model())
    }
}

pub proof fn lemma_models_of_len(args: Seq<ASTExpr>)
    ensures
        models_of(args).len() == args.len(),
    decreases args.len(),
{
    if args.len() > 0 {
        lemma_models_of_len(args.drop_last());
    }
}

/// `let NAME = VALUE;`
#[derive(Debug)]
pub struct ASTLetStmt {
    pub var_name: String,
    pub value: ASTExpr,
}

/// `return VALUE;` in a function returning `i32`, or `return;` in a `void`
/// function, where the value is `Int(0)` and stands for nothing.
#[derive(Debug)]
pub struct ASTReturnStmt {
    pub value: ASTExpr,
    pub function_ret_type: ASTType,
}

/// `NAME = VALUE;`
#[derive(Debug)]
pub struct ASTAssignmentStmt {
    pub var_name: String,
    pub value: ASTExpr,
}

/// A statement of a function body.
#[derive(Debug)]
pub enum ASTStmt {
    LetStmt(ASTLetStmt),
    ReturnStmt(ASTReturnStmt),
    AssignmentStmt(ASTAssignmentStmt),
}

/// A parameter of a function.
#[derive(Debug)]
pub struct ASTParam {
    pub name: String,
    pub data_type: ASTType,
}

/// A function definition.
#[derive(Debug)]
pub struct ASTFuncDef {
    pub name: String,
    pub params: Vec<ASTParam>,
    pub return_type: ASTType,
    pub body: Vec<ASTStmt>,
}

/// A top-level item of a program.
#[derive(Debug)]
pub enum ASTNode {
    FuncDef(ASTFuncDef),
}

/// The model of a statement.
pub enum SStmt {
    Let(Seq<char>, SExpr),
    Return(SExpr, ASTType),
    Assign(Seq<char>, SExpr),
}

/// The model of a parameter.
pub struct SParam {
    pub name: Seq<char>,
    pub data_type: ASTType,
}

/// The model of a function definition.
pub struct SFunc {
    pub name: Seq<char>,
    pub params: Seq<SParam>,
    pub return_type: ASTType,
    pub body: Seq<SStmt>,
}

impl ASTStmt {
    pub open spec fn model(&self) -> SStmt {
        match self {
            ASTStmt::LetStmt(s) => SStmt::Let(s.var_name@, s.value.model()),
            ASTStmt::ReturnStmt(s) => SStmt::Return(s.value.model(), s.function_ret_type),
            ASTStmt::AssignmentStmt(s) => SStmt::Assign(s.var_name@, s.value.model()),
        }
    }
}

impl ASTParam {
    pub open spec fn model(&self) -> SParam {
        SParam { name: self.name@, data_type: self.data_type }
    }
}

pub open spec fn stmt_models(v: Seq<ASTStmt>) -> Seq<SStmt> {
    Seq::new(v.len(), |k: int| v[k].model())
}

pub open spec fn param_models(v: Seq<ASTParam>) -> Seq<SParam> {
    Seq::new(v.len(), |k: int| v[k].model())
}

impl ASTFuncDef {
    pub open spec fn model(&self) -> SFunc {
        SFunc {
            name: self.name@,
            params: param_models(self.params@),
            return_type: self.return_type,
            body: stmt_models(self.body@),
        }
    }
}

impl ASTNode {
    pub open spec fn model(&self) -> SFunc {
        match self {
            ASTNode::FuncDef(f) => f.model(),
        }
    }
}

pub open spec fn program_model(v: Seq<ASTNode>) -> Seq<SFunc> {
    Seq::new(v.len(), |k: int| v[k].model())
}

} // verus!
