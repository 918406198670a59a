//! The abstract syntax tree the parser produces and the code generator
//! consumes, together with its mathematical model (`*V` types), in which
//! identifier names are character sequences.

use vstd::prelude::*;

verus! {

/// An expression node.
#[derive(Debug)]
pub enum Expr {
    Int(i64),
    Local(String),
    Binary { op: BinOp, left: Box<Expr>, right: Box<Expr> },
    Call { name: String, args: Vec<Expr> },
}

/// The ten binary operators; all are left-associative and binary.
#[derive(Debug, Clone, Copy, PartialEq, Eq, Structural)]
pub enum BinOp {
    Add,
    Sub,
    Mul,
    Div,
    Eq,
    NotEq,
    Lt,
    Le,
    Gt,
    Ge,
}

/// A statement node. An `If` without source `else` carries an empty
/// `else_block`; a `Return` without an expression carries `None`.
#[derive(Debug)]
pub enum Stmt {
    Let { name: String, value: Expr },
    Return(Option<Expr>),
    Expr(Expr),
    If { cond: Expr, then_block: Vec<Stmt>, else_block: Vec<Stmt> },
    While { cond: Expr, body: Vec<Stmt> },
}

/// One function declaration. Parameters are untyped names: every value in
/// the language is a 64-bit signed integer.
#[derive(Debug)]
pub struct FunctionDecl {
    pub name: String,
    pub params: Vec<String>,
    pub body: Vec<Stmt>,
    pub return_type: Option<Type>,
}

/// The only value type of the language.
#[derive(Debug, Clone, Copy, PartialEq, Eq, Structural)]
pub enum Type {
    Int,
}

/// A whole source program: its function declarations in source order.
#[derive(Debug)]
pub struct Program {
    pub functions: Vec<FunctionDecl>,
}

/// Model of an expression.
pub enum ExprV {
    Int(i64),
    Local(Seq<char>),
    Binary { op: BinOp, left: Box<ExprV>, right: Box<ExprV> },
    Call { name: Seq<char>, args: Seq<ExprV> },
}

/// Model of a statement.
pub enum StmtV {
    Let { name: Seq<char>, value: ExprV },
    Return(Option<ExprV>),
    Expr(ExprV),
    If { cond: ExprV, then_block: Seq<StmtV>, else_block: Seq<StmtV> },
    While { cond: ExprV, body: Seq<StmtV> },
}

/// Model of a function declaration.
pub struct FunctionDeclV {
    pub name: Seq<char>,
    pub params: Seq<Seq<char>>,
    pub body: Seq<StmtV>,
    pub return_type: Option<Type>,
}

/// Model of a program.
pub struct ProgramV {
    pub functions: Seq<FunctionDeclV>,
}

pub open spec fn exprs_view(es: Seq<Expr>) -> Seq<ExprV>
    decreases es,
{
    Seq::new(
        es.len(),
        |i: int|
            if 0 <= i < es.len() {
                expr_view(es[i])
            } else {
                ExprV::Int(0)
            },
    )
}

pub open spec fn expr_view(e: Expr) -> ExprV
    decreases e,
{
    match e {
        Expr::Int(v) => ExprV::Int(v),
        Expr::Local(name) => ExprV::Local(name@),
        Expr::Binary { op, left, right } => ExprV::Binary {
            op,
            left: Box::new(expr_view(*left)),
            right: Box::new(expr_view(*right)),
        },
        Expr::Call { name, args } => ExprV::Call {
            name: name@,
            args: exprs_view(args@),
        },
    }
}

pub open spec fn stmts_view(ss: Seq<Stmt>) -> Seq<StmtV>
    decreases ss,
{
    Seq::new(
        ss.len(),
        |i: int|
            if 0 <= i < ss.len() {
                stmt_view(ss[i])
            } else {
                StmtV::Expr(ExprV::Int(0))
            },
    )
}

pub open spec fn stmt_view(s: Stmt) -> StmtV
    decreases s,
{
    match s {
        Stmt::Let { name, value } => StmtV::Let { name: name@, value: expr_view(value) },
        Stmt::Return(e) => StmtV::Return(match e {
            Some(e) => Some(expr_view(e)),
            None => None,
        }),
        Stmt::Expr(e) => StmtV::Expr(expr_view(e)),
        Stmt::If { cond, then_block, else_block } => StmtV::If {
            cond: expr_view(cond),
            then_block: stmts_view(then_block@),
            else_block: stmts_view(else_block@),
        },
        Stmt::While { cond, body } => StmtV::While {
            cond: expr_view(cond),
            body: stmts_view(body@),
        },
    }
}

pub open spec fn function_decl_view(f: FunctionDecl) -> FunctionDeclV {
    FunctionDeclV {
        name: f.name@,
        params: f.params@.map_values(|p: String| p@),
        body: stmts_view(f.body@),
        return_type: f.return_type,
    }
}

impl View for Expr {
    type V = ExprV;

    open spec fn view(&self) -> ExprV {
        expr_view(*self)
    }
}

impl DeepView for Expr {
    type V = ExprV;

    open spec fn deep_view(&self) -> ExprV {
        expr_view(*self)
    }
}

impl View for Stmt {
    type V = StmtV;

    open spec fn view(&self) -> StmtV {
        stmt_view(*self)
    }
}

impl DeepView for Stmt {
    type V = StmtV;

    open spec fn deep_view(&self) -> StmtV {
        stmt_view(*self)
    }
}

impl View for FunctionDecl {
    type V = FunctionDeclV;

    open spec fn view(&self) -> FunctionDeclV {
        function_decl_view(*self)
    }
}

impl DeepView for FunctionDecl {
    type V = FunctionDeclV;

    open spec fn deep_view(&self) -> FunctionDeclV {
        function_decl_view(*self)
    }
}

impl View for Program {
    type V = ProgramV;

    open spec fn view(&self) -> ProgramV {
        ProgramV { functions: self.functions@.map_values(|f: FunctionDecl| function_decl_view(f)) }
    }
}

} // verus!
