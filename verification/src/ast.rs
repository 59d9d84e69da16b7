use vstd::prelude::*;

verus! {

/// A source position: line number, then column number.
#[derive(Debug, Clone, Copy, PartialEq, Eq, Structural)]
pub struct Location(pub usize, pub usize);

/// Any node of the abstract syntax tree, one variant per production.
#[derive(Debug)]
pub enum AstExpr {
    ProgramExpr(Box<ProgramExpr>),
    BlockExpr(Box<BlockExpr>),
    ConstDeclExpr(Box<ConstDeclExpr>),
    ConstExpr(Box<ConstExpr>),
    VarDeclExpr(Box<VarDeclExpr>),
    ProcExpr(Box<ProcExpr>),
    BodyExpr(Box<BodyExpr>),
    StatementExpr(Box<StatementExpr>),
    LExpExpr(Box<LExpExpr>),
    ExpExpr(Box<ExpExpr>),
    TermExpr(Box<TermExpr>),
    FactorExpr(Box<FactorExpr>),
    LopExpr(Box<LopExpr>),
    AopExpr(Box<AopExpr>),
    MopExpr(Box<MopExpr>),
    IdExpr(Box<IdExpr>),
    IntegerExpr(Box<IntegerExpr>),
}

/// `program <id> ; <block>`
#[derive(Debug)]
pub struct ProgramExpr {
    pub id: Box<IdExpr>,
    pub block: Box<BlockExpr>,
}

/// `[const-decl] [var-decl] [proc] body`
#[derive(Debug)]
pub struct BlockExpr {
    pub const_decl: Option<Box<ConstDeclExpr>>,
    pub var_decl: Option<Box<VarDeclExpr>>,
    pub proc: Option<Box<ProcExpr>>,
    pub body: Box<BodyExpr>,
}

/// `const <const> {, <const>} ;`
#[derive(Debug)]
pub struct ConstDeclExpr {
    pub constants: Vec<Box<ConstExpr>>,
}

/// `<id> := <integer>`
#[derive(Debug)]
pub struct ConstExpr {
    pub id: Box<IdExpr>,
    pub integer: Box<IntegerExpr>,
}

/// `var <id> {, <id>} ;`
#[derive(Debug)]
pub struct VarDeclExpr {
    pub id_list: Vec<Box<IdExpr>>,
}

/// `procedure <id> ([<id> {, <id>}]) ; <block> {; <proc>}`
#[derive(Debug)]
pub struct ProcExpr {
    pub id: Box<IdExpr>,
    pub args: Vec<Box<IdExpr>>,
    pub block: Box<BlockExpr>,
    pub procs: Vec<Box<ProcExpr>>,
}

/// `begin <statement> {; <statement>} end`
#[derive(Debug)]
pub struct BodyExpr {
    pub statements: Vec<Box<StatementExpr>>,
}

/// One statement, one variant per alternative of the grammar.
#[derive(Debug)]
pub enum StatementExpr {
    Id { id: Box<IdExpr>, exp: Box<ExpExpr> },
    If {
        l_exp: Box<LExpExpr>,
        then_statement: Box<StatementExpr>,
        else_statement: Option<Box<StatementExpr>>,
    },
    While { l_exp: Box<LExpExpr>, statement: Box<StatementExpr> },
    Call { id: Box<IdExpr>, args: Vec<Box<ExpExpr>> },
    Body { body: Box<BodyExpr> },
    Read { id_list: Vec<Box<IdExpr>> },
    Write { exps: Vec<Box<ExpExpr>> },
}

/// A condition: a comparison of two expressions, or a parity test.
#[derive(Debug)]
pub enum LExpExpr {
    Exp { l_exp: Box<ExpExpr>, lop: Box<LopExpr>, r_exp: Box<ExpExpr> },
    Odd { exp: Box<ExpExpr> },
}

/// `[+|-] <term> {<aop> <term>}`
#[derive(Debug)]
pub struct ExpExpr {
    pub is_negative: bool,
    pub term: Box<TermExpr>,
    pub aop_terms: Vec<(Box<AopExpr>, Box<TermExpr>)>,
}

/// `<factor> {<mop> <factor>}`
#[derive(Debug)]
pub struct TermExpr {
    pub factor: Box<FactorExpr>,
    pub mop_factors: Vec<(Box<MopExpr>, Box<FactorExpr>)>,
}

/// `<id> | <integer> | (<exp>)`
#[derive(Debug)]
pub enum FactorExpr {
    Id(Box<IdExpr>),
    Integer(Box<IntegerExpr>),
    Exp(Box<ExpExpr>),
}

/// A relational operator, with its source position.
#[derive(Debug, Clone, Copy)]
pub enum LopExpr {
    Eq(Location),
    Ne(Location),
    Lt(Location),
    Le(Location),
    Gt(Location),
    Ge(Location),
}

/// An additive operator, with its source position.
#[derive(Debug, Clone, Copy)]
pub enum AopExpr {
    Add(Location),
    Sub(Location),
}

/// A multiplicative operator, with its source position.
#[derive(Debug, Clone, Copy)]
pub enum MopExpr {
    Mul(Location),
    Div(Location),
}

/// An identifier occurrence: its text and its source position.
#[derive(Debug, Clone)]
pub struct IdExpr(pub String, pub Location);

/// An integer literal: its value and its source position.
#[derive(Debug, Clone, Copy)]
pub struct IntegerExpr(pub i64, pub Location);

} // verus!
