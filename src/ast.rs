//! Syntax tree of the language, and its mathematical model.
use vstd::prelude::*;

verus! {

broadcast use {vstd::std_specs::vec::group_vec_axioms, vstd::seq::group_seq_axioms};

/// Arithmetic operators.
#[derive(Clone, Copy, Debug, PartialEq, Eq, Structural)]
pub enum AriOp {
    Add,
    Sub,
    Mul,
    Div,
}

/// Assignment operators.
#[derive(Clone, Copy, Debug, PartialEq, Eq, Structural)]
pub enum AssOp {
    Eq,
    AddEq,
    SubEq,
    MulEq,
    DivEq,
}

/// Logical operators.
#[derive(Clone, Copy, Debug, PartialEq, Eq, Structural)]
pub enum LogOp {
    And,
    Or,
}

/// Relational operators.
#[derive(Clone, Copy, Debug, PartialEq, Eq, Structural)]
pub enum RelOp {
    Eq,
    Neq,
    Les,
    Gre,
    Leq,
    Geq,
}

/// A binary operator, tagged with its family.
#[derive(Clone, Copy, Debug, PartialEq, Eq, Structural)]
pub enum Op {
    AriOp(AriOp),
    AssOp(AssOp),
    LogOp(LogOp),
    RelOp(RelOp),
}

/// The types a binding, a parameter or a function result can have.
#[derive(Clone, Copy, Debug, PartialEq, Eq, Structural)]
pub enum Type {
    Int,
    Bool,
    Void,
}

/// A node of the syntax tree. Each node owns its children.
#[derive(Debug, PartialEq)]
pub enum Expr {
    Int(i32),
    Bool(bool),
    Var(String),
    BinExpr(Box<Expr>, Op, Box<Expr>),
    VarExpr(Box<Expr>, Op, Box<Expr>),
    Let(Box<Expr>, Type, Box<Expr>),
    If(Box<Expr>, Vec<Expr>),
    IfElse(Box<Expr>, Vec<Expr>, Vec<Expr>),
    While(Box<Expr>, Vec<Expr>),
    Fn(Box<Expr>, Vec<(Expr, Type)>, Type, Vec<Expr>),
    FnCall(Box<Expr>, Vec<Expr>),
    Return(Box<Expr>),
}

/// The model of an [`Expr`]: names as character sequences, bodies as sequences.
pub enum Ast {
    Int(i32),
    Bool(bool),
    Var(Seq<char>),
    BinExpr(Box<Ast>, Op, Box<Ast>),
    VarExpr(Box<Ast>, Op, Box<Ast>),
    Let(Box<Ast>, Type, Box<Ast>),
    If(Box<Ast>, Seq<Ast>),
    IfElse(Box<Ast>, Seq<Ast>, Seq<Ast>),
    While(Box<Ast>, Seq<Ast>),
    Fn(Box<Ast>, Seq<(Ast, Type)>, Type, Seq<Ast>),
    FnCall(Box<Ast>, Seq<Ast>),
    Return(Box<Ast>),
}

impl Expr {
    pub open spec fn view(&self) -> Ast
        decreases self,
    {
        match self {
            Expr::Int(n) => Ast::Int(*n),
            Expr::Bool(b) => Ast::Bool(*b),
            Expr::Var(v) => Ast::Var(v@),
            Expr::BinExpr(l, o, r) => Ast::BinExpr(Box::new(l.view()), *o, Box::new(r.view())),
            Expr::VarExpr(l, o, r) => Ast::VarExpr(Box::new(l.view()), *o, Box::new(r.view())),
            Expr::Let(v, t, e) => Ast::Let(Box::new(v.view()), *t, Box::new(e.view())),
            Expr::If(c, b) => Ast::If(Box::new(c.view()), views(b@)),
            Expr::IfElse(c, b1, b2) => Ast::IfElse(Box::new(c.view()), views(b1@), views(b2@)),
            Expr::While(c, b) => Ast::While(Box::new(c.view()), views(b@)),
            Expr::Fn(n, ps, t, b) => Ast::Fn(Box::new(n.view()), param_views(ps@), *t, views(b@)),
            Expr::FnCall(n, a) => Ast::FnCall(Box::new(n.view()), views(a@)),
            Expr::Return(e) => Ast::Return(Box::new(e.view())),
        }
    }
}

/// The model of a sequence of nodes.
pub open spec fn views(v: Seq<Expr>) -> Seq<Ast>
    decreases v,
{
    if v.len() == 0 {
        Seq::empty()
    } else {
        seq![v[0].view()] + views(v.drop_first())
    }
}

/// The model of a parameter list.
pub open spec fn param_views(v: Seq<(Expr, Type)>) -> Seq<(Ast, Type)>
    decreases v,
{
    if v.len() == 0 {
        Seq::empty()
    } else {
        seq![(v[0].0.view(), v[0].1)] + param_views(v.drop_first())
    }
}

} // verus!
