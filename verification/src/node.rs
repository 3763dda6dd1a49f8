//! The syntax tree that the parser hands to the scope analyzer and the emitter.

use crate::name_set::NameSet;
use vstd::prelude::*;

verus! {

/// Binary operators of the language.
#[derive(Clone, Copy, Debug, PartialEq, Eq, Structural)]
pub enum BinOp {
    Add,
    Sub,
    Mul,
    Div,
    Rem,
    Lt,
    Gt,
    Le,
    Ge,
    Eq,
    Ne,
    SEq,
    SNe,
    And,
    Or,
    LAnd,
    LOr,
}

/// Unary operators of the language.
#[derive(Clone, Copy, Debug, PartialEq, Eq, Structural)]
pub enum UnaryOp {
    Minus,
    Plus,
    Not,
    BitwiseNot,
    Typeof,
}

/// One formal parameter of a function declaration.
#[derive(Debug)]
pub struct FormalParameter {
    pub name: String,
    pub is_rest_param: bool,
}

/// The formal parameters of a function, in declaration order.
pub type FormalParameters = Vec<FormalParameter>;

/// A node of the syntax tree.
///
/// In `FunctionDecl(name, use_this, fv, params, body)` the second and third
/// fields are filled in by the scope analyzer.
#[derive(Debug)]
pub enum Node {
    StatementList(Vec<Node>),
    FunctionDecl(String, bool, NameSet, FormalParameters, Box<Node>),
    Call(Box<Node>, Vec<Node>),
    VarDecl(String, Option<Box<Node>>),
    Return(Option<Box<Node>>),
    Member(Box<Node>, String),
    This,
    Identifier(String),
    If(Box<Node>, Box<Node>, Box<Node>),
    While(Box<Node>, Box<Node>),
    Assign(Box<Node>, Box<Node>),
    UnaryOp(Box<Node>, UnaryOp),
    BinaryOp(Box<Node>, Box<Node>, BinOp),
    TernaryOp(Box<Node>, Box<Node>, Box<Node>),
    String(String),
    Boolean(bool),
    Number(u64),
    Nope,
}

/// A formal parameter as a mathematical value.
pub struct Param {
    pub name: Seq<char>,
    pub is_rest_param: bool,
}

/// A syntax tree as a mathematical value: names are texts, lists are sequences
/// and the free-variable annotation is a set.
pub enum Ast {
    StatementList(Seq<Ast>),
    FunctionDecl(Seq<char>, bool, Set<Seq<char>>, Seq<Param>, Box<Ast>),
    Call(Box<Ast>, Seq<Ast>),
    VarDecl(Seq<char>, Option<Box<Ast>>),
    Return(Option<Box<Ast>>),
    Member(Box<Ast>, Seq<char>),
    This,
    Identifier(Seq<char>),
    If(Box<Ast>, Box<Ast>, Box<Ast>),
    While(Box<Ast>, Box<Ast>),
    Assign(Box<Ast>, Box<Ast>),
    UnaryOp(Box<Ast>, UnaryOp),
    BinaryOp(Box<Ast>, Box<Ast>, BinOp),
    TernaryOp(Box<Ast>, Box<Ast>, Box<Ast>),
    String(Seq<char>),
    Boolean(bool),
    Number(u64),
    Nope,
}

impl FormalParameter {
    pub open spec fn view(&self) -> Param {
        Param { name: self.name@, is_rest_param: self.is_rest_param }
    }
}

/// The parameters of a list as mathematical values.
pub open spec fn params_view(params: Seq<FormalParameter>) -> Seq<Param> {
    Seq::new(params.len(), |i: int| params[i]@)
}

/// The trees of a list as mathematical values.
pub open spec fn nodes_view(nodes: Seq<Node>) -> Seq<Ast>
    decreases nodes,
{
    Seq::new(
        nodes.len(),
        |i: int|
            if 0 <= i < nodes.len() {
                nodes[i].view()
            } else {
                Ast::Nope
            },
    )
}

/// The tree under an optional child.
pub open spec fn option_view(node: Option<Box<Node>>) -> Option<Box<Ast>>
    decreases node,
{
    match node {
        Some(b) => Some(Box::new(b.view())),
        None => None,
    }
}

impl Node {
    pub open spec fn view(&self) -> Ast
        decreases self,
    {
        match self {
            Node::StatementList(nodes) => Ast::StatementList(nodes_view(nodes@)),
            Node::FunctionDecl(name, use_this, fv, params, body) => Ast::FunctionDecl(
                name@,
                *use_this,
                fv@,
                params_view(params@),
                Box::new(body.view()),
            ),
            Node::Call(callee, args) => Ast::Call(Box::new(callee.view()), nodes_view(args@)),
            Node::VarDecl(name, init) => Ast::VarDecl(name@, option_view(*init)),
            Node::Return(val) => Ast::Return(option_view(*val)),
            Node::Member(parent, member) => Ast::Member(Box::new(parent.view()), member@),
            Node::This => Ast::This,
            Node::Identifier(name) => Ast::Identifier(name@),
            Node::If(cond, then_, else_) => Ast::If(
                Box::new(cond.view()),
                Box::new(then_.view()),
                Box::new(else_.view()),
            ),
            Node::While(cond, body) => Ast::While(Box::new(cond.view()), Box::new(body.view())),
            Node::Assign(dst, src) => Ast::Assign(Box::new(dst.view()), Box::new(src.view())),
            Node::UnaryOp(expr, op) => Ast::UnaryOp(Box::new(expr.view()), *op),
            Node::BinaryOp(left, right, op) => Ast::BinaryOp(
                Box::new(left.view()),
                Box::new(right.view()),
                *op,
            ),
            Node::TernaryOp(cond, then_, else_) => Ast::TernaryOp(
                Box::new(cond.view()),
                Box::new(then_.view()),
                Box::new(else_.view()),
            ),
            Node::String(s) => Ast::String(s@),
            Node::Boolean(b) => Ast::Boolean(*b),
            Node::Number(n) => Ast::Number(*n),
            Node::Nope => Ast::Nope,
        }
    }
}

} // verus!
