//! Expressions and the values they evaluate to.
use vstd::prelude::*;
use crate::lang::number::Number;
use crate::lang::token::TokenType;

verus! {

/// The binary operators.
#[derive(Debug, Clone, Copy, PartialEq, Eq, Structural)]
pub enum BinaryOp {
    Equal,
    NotEqual,
    Add,
    Sub,
    Mul,
    Div,
    Gt,
    Gte,
    Lt,
    Lte,
}

/// The binary operator that a token of kind `ty` writes, if it writes one.
pub open spec fn binary_op(ty: TokenType) -> Option<BinaryOp> {
    match ty {
        TokenType::EqEq => Some(BinaryOp::Equal),
        TokenType::Ne => Some(BinaryOp::NotEqual),
        TokenType::Plus => Some(BinaryOp::Add),
        TokenType::Minus => Some(BinaryOp::Sub),
        TokenType::Star => Some(BinaryOp::Mul),
        TokenType::Slash => Some(BinaryOp::Div),
        TokenType::Gt => Some(BinaryOp::Gt),
        TokenType::Gte => Some(BinaryOp::Gte),
        TokenType::Lt => Some(BinaryOp::Lt),
        TokenType::Lte => Some(BinaryOp::Lte),
        _ => None,
    }
}

impl BinaryOp {
    /// The binary operator that a token of kind `ty` writes.
    pub fn from(ty: TokenType) -> (r: Self)
        requires
            binary_op(ty) is Some,
        ensures
            binary_op(ty) == Some(r),
    {
        match ty {
            TokenType::EqEq => BinaryOp::Equal,
            TokenType::Ne => BinaryOp::NotEqual,
            TokenType::Plus => BinaryOp::Add,
            TokenType::Minus => BinaryOp::Sub,
            TokenType::Star => BinaryOp::Mul,
            TokenType::Slash => BinaryOp::Div,
            TokenType::Gt => BinaryOp::Gt,
            TokenType::Gte => BinaryOp::Gte,
            TokenType::Lt => BinaryOp::Lt,
            _ => BinaryOp::Lte,
        }
    }

    /// The operator's name.
    pub open spec fn name(self) -> Seq<char> {
        match self {
            BinaryOp::Equal => "Equal"@,
            BinaryOp::NotEqual => "NotEqual"@,
            BinaryOp::Add => "Add"@,
            BinaryOp::Sub => "Sub"@,
            BinaryOp::Mul => "Mul"@,
            BinaryOp::Div => "Div"@,
            BinaryOp::Gt => "Gt"@,
            BinaryOp::Gte => "Gte"@,
            BinaryOp::Lt => "Lt"@,
            BinaryOp::Lte => "Lte"@,
        }
    }

    /// The operator's name.
    pub fn as_str(&self) -> (r: &'static str)
        ensures
            r@ == self.name(),
    {
        match self {
            BinaryOp::Equal => "Equal",
            BinaryOp::NotEqual => "NotEqual",
            BinaryOp::Add => "Add",
            BinaryOp::Sub => "Sub",
            BinaryOp::Mul => "Mul",
            BinaryOp::Div => "Div",
            BinaryOp::Gt => "Gt",
            BinaryOp::Gte => "Gte",
            BinaryOp::Lt => "Lt",
            BinaryOp::Lte => "Lte",
        }
    }

    /// Whether the operator computes a number from two numbers.
    pub open spec fn arithmetic(self) -> bool {
        self == BinaryOp::Add || self == BinaryOp::Sub || self == BinaryOp::Mul || self
            == BinaryOp::Div
    }
}

/// The unary operators.
#[derive(Debug, Clone, Copy, PartialEq, Eq, Structural)]
pub enum UnaryOp {
    Bang,
    Minus,
}

/// The unary operator that a token of kind `ty` writes, if it writes one.
pub open spec fn unary_op(ty: TokenType) -> Option<UnaryOp> {
    match ty {
        TokenType::Bang => Some(UnaryOp::Bang),
        TokenType::Minus => Some(UnaryOp::Minus),
        _ => None,
    }
}

impl UnaryOp {
    /// The unary operator that a token of kind `ty` writes.
    pub fn from(ty: TokenType) -> (r: Self)
        requires
            unary_op(ty) is Some,
        ensures
            unary_op(ty) == Some(r),
    {
        match ty {
            TokenType::Bang => UnaryOp::Bang,
            _ => UnaryOp::Minus,
        }
    }
}

/// The short-circuit operators.
#[derive(Debug, Clone, Copy, PartialEq, Eq, Structural)]
pub enum LogicalOp {
    And,
    Or,
}

/// The logical operator that a token of kind `ty` writes, if it writes one.
pub open spec fn logical_op(ty: TokenType) -> Option<LogicalOp> {
    match ty {
        TokenType::And => Some(LogicalOp::And),
        TokenType::Or => Some(LogicalOp::Or),
        _ => None,
    }
}

impl LogicalOp {
    /// The logical operator that a token of kind `ty` writes.
    pub fn from(ty: TokenType) -> (r: Self)
        requires
            logical_op(ty) is Some,
        ensures
            logical_op(ty) == Some(r),
    {
        match ty {
            TokenType::And => LogicalOp::And,
            _ => LogicalOp::Or,
        }
    }
}

/// A value of the language.
#[derive(Debug, PartialEq)]
pub enum Literal {
    Number(Number),
    String(String),
    Bool(bool),
    Char(char),
    Null,
}

/// The mathematical value of a [`Literal`].
pub enum LiteralView {
    Number(Number),
    String(Seq<char>),
    Bool(bool),
    Char(char),
    Null,
}

impl View for Literal {
    type V = LiteralView;

    open spec fn view(&self) -> LiteralView {
        match self {
            Literal::Number(n) => LiteralView::Number(*n),
            Literal::String(s) => LiteralView::String(s@),
            Literal::Bool(b) => LiteralView::Bool(*b),
            Literal::Char(c) => LiteralView::Char(*c),
            Literal::Null => LiteralView::Null,
        }
    }
}

impl Clone for Literal {
    fn clone(&self) -> (r: Self)
        ensures
            r@ == self@,
    {
        match self {
            Literal::Number(n) => Literal::Number(*n),
            Literal::String(s) => Literal::String(s.clone()),
            Literal::Bool(b) => Literal::Bool(*b),
            Literal::Char(c) => Literal::Char(*c),
            Literal::Null => Literal::Null,
        }
    }
}

/// The view of a variable's content: absent while it is uninitialized.
pub open spec fn slot_view(slot: Option<Literal>) -> Option<LiteralView> {
    match slot {
        Some(l) => Some(l@),
        None => None,
    }
}

/// An expression.
#[derive(Debug, PartialEq)]
pub enum Expr {
    Binary(Box<Expr>, BinaryOp, Box<Expr>),
    Grouping(Box<Expr>),
    Logical(Box<Expr>, LogicalOp, Box<Expr>),
    Unary(UnaryOp, Box<Expr>),
    Literal(Literal),
    Variable(String),
    Assign(String, Box<Expr>),
}

/// The mathematical value of an [`Expr`].
pub enum ExprView {
    Binary(Box<ExprView>, BinaryOp, Box<ExprView>),
    Grouping(Box<ExprView>),
    Logical(Box<ExprView>, LogicalOp, Box<ExprView>),
    Unary(UnaryOp, Box<ExprView>),
    Literal(LiteralView),
    Variable(Seq<char>),
    Assign(Seq<char>, Box<ExprView>),
}

impl Expr {
    /// The mathematical value of the expression.
    pub open spec fn model(self) -> ExprView
        decreases self,
    {
        match self {
            Expr::Binary(l, op, r) => ExprView::Binary(Box::new(l.model()), op, Box::new(r.model())),
            Expr::Grouping(e) => ExprView::Grouping(Box::new(e.model())),
            Expr::Logical(l, op, r) => ExprView::Logical(
                Box::new(l.model()),
                op,
                Box::new(r.model()),
            ),
            Expr::Unary(op, e) => ExprView::Unary(op, Box::new(e.model())),
            Expr::Literal(l) => ExprView::Literal(l@),
            Expr::Variable(name) => ExprView::Variable(name@),
            Expr::Assign(name, e) => ExprView::Assign(name@, Box::new(e.model())),
        }
    }
}

impl View for Expr {
    type V = ExprView;

    open spec fn view(&self) -> ExprView {
        self.model()
    }
}

impl Clone for Expr {
    fn clone(&self) -> (r: Self)
        ensures
            r@ == self@,
        decreases self,
    {
        match self {
            Expr::Binary(l, op, r) => Expr::Binary(
                Box::new((**l).clone()),
                *op,
                Box::new((**r).clone()),
            ),
            Expr::Grouping(e) => Expr::Grouping(Box::new((**e).clone())),
            Expr::Logical(l, op, r) => Expr::Logical(
                Box::new((**l).clone()),
                *op,
                Box::new((**r).clone()),
            ),
            Expr::Unary(op, e) => Expr::Unary(*op, Box::new((**e).clone())),
            Expr::Literal(l) => Expr::Literal(l.clone()),
            Expr::Variable(name) => Expr::Variable(name.clone()),
            Expr::Assign(name, e) => Expr::Assign(name.clone(), Box::new((**e).clone())),
        }
    }
}

} // verus!
