//! Operators and values: what an operator gives when it is applied to
//! values, and what counts as true.
use vstd::prelude::*;
use crate::lang::environment::{Environment, Frame, lookup};
use crate::lang::expr::{BinaryOp, Expr, ExprView, Literal, LiteralView, UnaryOp};
use crate::lang::number::Number;
use crate::lang::runtime_error::{ErrorKind, RuntimeError, RuntimeErrorView};

verus! {

/// What the expression under evaluation has come to.
pub enum ControlView {
    /// An expression still to be evaluated.
    Expr(ExprView),
    /// A value, on its way to what waits for it.
    Value(LiteralView),
    /// Two numbers whose sum, difference, product or quotient the host is
    /// asked for.
    Arith(BinaryOp, Number, Number),
    /// A text, and a number whose written form the host is asked for, to
    /// be appended to the text.
    Concat(Seq<char>, Number),
    /// A runtime error, which ends the evaluation.
    Failure(RuntimeErrorView),
}

/// The name of a value's type.
pub open spec fn typename(v: LiteralView) -> Seq<char> {
    match v {
        LiteralView::Number(_) => "number"@,
        LiteralView::String(_) => "String"@,
        LiteralView::Bool(_) => "bool"@,
        LiteralView::Char(_) => "char"@,
        LiteralView::Null => "null"@,
    }
}

/// Whether a value counts as true: a number if it is greater than zero, a
/// text if it is not empty, a character if it is not the digit zero; null
/// never.
pub open spec fn truthy(v: LiteralView) -> bool {
    match v {
        LiteralView::Number(n) => n.positive(),
        LiteralView::String(s) => s.len() > 0,
        LiteralView::Bool(b) => b,
        LiteralView::Char(c) => c != '0',
        LiteralView::Null => false,
    }
}

/// How a value is written, where the interpreter can say so itself: it
/// cannot for a number.
pub open spec fn plain_text(v: LiteralView) -> Option<Seq<char>> {
    match v {
        LiteralView::Number(_) => None,
        LiteralView::String(s) => Some(s),
        LiteralView::Bool(b) => Some(
            if b {
                "true"@
            } else {
                "false"@
            },
        ),
        LiteralView::Char(c) => Some(seq![c]),
        LiteralView::Null => Some("null"@),
    }
}

/// The failure of the given kind and message.
pub open spec fn failure(kind: ErrorKind, what: Seq<char>) -> ControlView {
    ControlView::Failure(RuntimeErrorView { what, kind })
}

/// What the error says when `op` is not defined for the types of `left`
/// and `right`.
pub open spec fn not_supported(op: BinaryOp, left: LiteralView, right: LiteralView) -> Seq<char> {
    "'"@ + op.name() + "' not supported for types '"@ + typename(left) + "' and '"@ + typename(
        right,
    ) + "'"@
}

/// The failure to apply `op` to operands of the types of `left` and `right`.
pub open spec fn undefined_operator(op: BinaryOp, left: LiteralView, right: LiteralView) -> ControlView {
    failure(ErrorKind::OperatorNotDefined, not_supported(op, left, right))
}

/// Whether `op` is defined for a left operand of the type of `left` and a
/// right operand of the type of `right`.
pub open spec fn operator_defined(op: BinaryOp, left: LiteralView, right: LiteralView) -> bool {
    match (left, right) {
        (LiteralView::Number(_), LiteralView::Number(_)) => true,
        (LiteralView::String(_), LiteralView::String(_)) => op == BinaryOp::Equal || op
            == BinaryOp::NotEqual || op == BinaryOp::Add,
        (LiteralView::String(_), LiteralView::Number(_)) => op == BinaryOp::Add,
        (LiteralView::String(_), LiteralView::Char(_)) => op == BinaryOp::Add,
        (LiteralView::Bool(_), LiteralView::Bool(_)) => op == BinaryOp::Equal || op
            == BinaryOp::NotEqual,
        (LiteralView::Char(_), LiteralView::Char(_)) => op == BinaryOp::Equal || op
            == BinaryOp::NotEqual,
        _ => false,
    }
}

/// A binary operator applied to two numbers.
pub open spec fn binary_numbers(a: Number, op: BinaryOp, b: Number) -> ControlView {
    match op {
        BinaryOp::Equal => ControlView::Value(LiteralView::Bool(a.same(b))),
        BinaryOp::NotEqual => ControlView::Value(LiteralView::Bool(!a.same(b))),
        BinaryOp::Add => ControlView::Arith(op, a, b),
        BinaryOp::Sub => ControlView::Arith(op, a, b),
        BinaryOp::Mul => ControlView::Arith(op, a, b),
        BinaryOp::Div => if b.zero() {
            failure(ErrorKind::ZeroDivision, "cannot divide by zero"@)
        } else {
            ControlView::Arith(op, a, b)
        },
        BinaryOp::Gt => ControlView::Value(LiteralView::Bool(b.less(a))),
        BinaryOp::Gte => ControlView::Value(LiteralView::Bool(b.less(a) || a.same(b))),
        BinaryOp::Lt => ControlView::Value(LiteralView::Bool(a.less(b))),
        BinaryOp::Lte => ControlView::Value(LiteralView::Bool(a.less(b) || a.same(b))),
    }
}

/// A binary operator applied to two values.
pub open spec fn binary(left: LiteralView, op: BinaryOp, right: LiteralView) -> ControlView {
    if !operator_defined(op, left, right) {
        undefined_operator(op, left, right)
    } else {
        match (left, right) {
            (LiteralView::Number(a), LiteralView::Number(b)) => binary_numbers(a, op, b),
            (LiteralView::String(a), LiteralView::String(b)) => if op == BinaryOp::Add {
                ControlView::Value(LiteralView::String(a + b))
            } else {
                ControlView::Value(LiteralView::Bool((op == BinaryOp::Equal) == (a == b)))
            },
            (LiteralView::String(a), LiteralView::Number(b)) => ControlView::Concat(a, b),
            (LiteralView::String(a), LiteralView::Char(c)) => ControlView::Value(
                LiteralView::String(a.push(c)),
            ),
            (LiteralView::Bool(a), LiteralView::Bool(b)) => ControlView::Value(
                LiteralView::Bool((op == BinaryOp::Equal) == (a == b)),
            ),
            (LiteralView::Char(a), LiteralView::Char(b)) => ControlView::Value(
                LiteralView::Bool((op == BinaryOp::Equal) == (a == b)),
            ),
            _ => undefined_operator(op, left, right),
        }
    }
}

/// What the error says when a value of the type of `v` is negated.
pub open spec fn not_negatable(v: LiteralView) -> Seq<char> {
    "unary negate not supported for type '"@ + typename(v) + "'"@
}

/// A unary operator applied to a value.
pub open spec fn unary(op: UnaryOp, v: LiteralView) -> ControlView {
    match op {
        UnaryOp::Bang => ControlView::Value(LiteralView::Bool(truthy(v))),
        UnaryOp::Minus => match v {
            LiteralView::Number(n) => ControlView::Value(LiteralView::Number(n.opposite())),
            _ => failure(ErrorKind::OperatorNotDefined, not_negatable(v)),
        },
    }
}

/// A name in quotes.
pub open spec fn quoted(name: Seq<char>) -> Seq<char> {
    "'"@ + name + "'"@
}

/// What the error says when `name` is read before it was given a value.
pub open spec fn not_initialized(name: Seq<char>) -> Seq<char> {
    "variable '"@ + name + "' was not initialized, cannot read from unititialized memory"@
}

/// Reading the variable `name`.
pub open spec fn variable(frames: Seq<Frame>, name: Seq<char>) -> ControlView {
    match lookup(frames, name) {
        None => failure(ErrorKind::UndefinedVariable, quoted(name)),
        Some(None) => failure(ErrorKind::UninitializedAccess, not_initialized(name)),
        Some(Some(v)) => ControlView::Value(v),
    }
}

/// Division by zero is an error, whatever is divided.
pub proof fn lemma_zero_division(a: Number, b: Number)
    requires
        b.zero(),
    ensures
        binary(LiteralView::Number(a), BinaryOp::Div, LiteralView::Number(b)) == failure(
            ErrorKind::ZeroDivision,
            "cannot divide by zero"@,
        ),
{
}

/// The host is asked for arithmetic on two numbers only, for one of the
/// four arithmetic operators only, and never for a quotient by zero.
pub proof fn lemma_arithmetic_requests(left: LiteralView, op: BinaryOp, right: LiteralView)
    ensures
        match binary(left, op, right) {
            ControlView::Arith(o, a, b) => o == op && op.arithmetic() && left
                == LiteralView::Number(a) && right == LiteralView::Number(b) && (op
                == BinaryOp::Div ==> !b.zero()),
            _ => true,
        },
{
}

/// An operator applied to operands for whose types it is not defined fails
/// with `OperatorNotDefined`, and the error names both types; applied to
/// operands for whose types it is defined it fails only for a division by
/// zero.
pub proof fn lemma_operator_table(left: LiteralView, op: BinaryOp, right: LiteralView)
    ensures
        !operator_defined(op, left, right) ==> binary(left, op, right) == failure(
            ErrorKind::OperatorNotDefined,
            "'"@ + op.name() + "' not supported for types '"@ + typename(left) + "' and '"@
                + typename(right) + "'"@,
        ),
        operator_defined(op, left, right) ==> (binary(left, op, right) is Failure <==> (op
            == BinaryOp::Div && right is Number && right->Number_0.zero())),
{
}

/// Negation is defined for numbers only: of any other value it fails with
/// `OperatorNotDefined`, and the error names the value's type. `!` is
/// defined for every value.
pub proof fn lemma_unary_table(op: UnaryOp, v: LiteralView)
    ensures
        op == UnaryOp::Minus && !(v is Number) ==> unary(op, v) == failure(
            ErrorKind::OperatorNotDefined,
            "unary negate not supported for type '"@ + typename(v) + "'"@,
        ),
        op == UnaryOp::Bang ==> unary(op, v) == ControlView::Value(LiteralView::Bool(truthy(v))),
        op == UnaryOp::Minus && v is Number ==> unary(op, v) is Value,
{
}

/// What the expression under evaluation has come to.
pub enum Control {
    Expr(Expr),
    Value(Literal),
    Arith(BinaryOp, Number, Number),
    Concat(String, Number),
    Failure(RuntimeError),
}

impl View for Control {
    type V = ControlView;

    open spec fn view(&self) -> ControlView {
        match self {
            Control::Expr(e) => ControlView::Expr(e@),
            Control::Value(v) => ControlView::Value(v@),
            Control::Arith(op, a, b) => ControlView::Arith(*op, *a, *b),
            Control::Concat(s, n) => ControlView::Concat(s@, *n),
            Control::Failure(e) => ControlView::Failure(e@),
        }
    }
}

/// The name of a value's type.
pub fn typename_from_literal(literal: &Literal) -> (r: &'static str)
    ensures
        r@ == typename(literal@),
{
    match literal {
        Literal::Number(_) => "number",
        Literal::String(_) => "String",
        Literal::Bool(_) => "bool",
        Literal::Char(_) => "char",
        Literal::Null => "null",
    }
}

/// Whether a value counts as true.
pub fn is_truthy(value: &Literal) -> (r: bool)
    ensures
        r == truthy(value@),
{
    match value {
        Literal::Number(x) => x.is_positive(),
        Literal::String(x) => x.as_str().unicode_len() > 0,
        Literal::Bool(x) => *x,
        Literal::Char(x) => *x != '0',
        Literal::Null => false,
    }
}

/// How a value is written; `None` for a number, which the host writes.
pub fn literal_text(value: &Literal) -> (r: Option<String>)
    ensures
        match r {
            Some(t) => plain_text(value@) == Some(t@),
            None => plain_text(value@) is None,
        },
{
    match value {
        Literal::Number(_) => None,
        Literal::String(x) => Some(x.clone()),
        Literal::Bool(x) => Some(
            String::from_str(
                if *x {
                    "true"
                } else {
                    "false"
                },
            ),
        ),
        Literal::Char(x) => {
            let mut t = String::new();
            t.push(*x);
            assert(t@ =~= seq![*x]);
            Some(t)
        },
        Literal::Null => Some(String::from_str("null")),
    }
}

/// The failure of the given kind and message.
pub fn runtime_error(kind: ErrorKind, msg: String) -> (r: Control)
    ensures
        r@ == failure(kind, msg@),
{
    Control::Failure(RuntimeError { what: msg, kind })
}

/// The value that is the boolean `b`.
fn boolean(b: bool) -> (r: Control)
    ensures
        r@ == ControlView::Value(LiteralView::Bool(b)),
{
    Control::Value(Literal::Bool(b))
}

/// The failure to apply `op` to `left` and `right`.
fn operator_not_defined(op: BinaryOp, left: &Literal, right: &Literal) -> (r: Control)
    ensures
        r@ == undefined_operator(op, left@, right@),
{
    let mut msg = String::from_str("'");
    msg.append(op.as_str());
    msg.append("' not supported for types '");
    msg.append(typename_from_literal(left));
    msg.append("' and '");
    msg.append(typename_from_literal(right));
    msg.append("'");
    runtime_error(ErrorKind::OperatorNotDefined, msg)
}

/// A binary operator applied to two numbers.
fn visit_binary_numbers(a: Number, op: BinaryOp, b: Number) -> (r: Control)
    ensures
        r@ == binary_numbers(a, op, b),
{
    match op {
        BinaryOp::Equal => boolean(a.equals(&b)),
        BinaryOp::NotEqual => boolean(!a.equals(&b)),
        BinaryOp::Add => Control::Arith(op, a, b),
        BinaryOp::Sub => Control::Arith(op, a, b),
        BinaryOp::Mul => Control::Arith(op, a, b),
        BinaryOp::Div => {
            if b.is_zero() {
                runtime_error(ErrorKind::ZeroDivision, String::from_str("cannot divide by zero"))
            } else {
                Control::Arith(op, a, b)
            }
        },
        BinaryOp::Gt => boolean(b.less_than(&a)),
        BinaryOp::Gte => boolean(b.less_than(&a) || a.equals(&b)),
        BinaryOp::Lt => boolean(a.less_than(&b)),
        BinaryOp::Lte => boolean(a.less_than(&b) || a.equals(&b)),
    }
}

/// Whether `op` is `==`; `None` if it is neither `==` nor `!=`.
fn equality_operator(op: BinaryOp) -> (r: Option<bool>)
    ensures
        r == if op == BinaryOp::Equal {
            Some(true)
        } else if op == BinaryOp::NotEqual {
            Some(false)
        } else {
            None
        },
{
    match op {
        BinaryOp::Equal => Some(true),
        BinaryOp::NotEqual => Some(false),
        _ => None,
    }
}

/// A binary operator applied to two values: the value it gives, the
/// request to the host that gives it, or the error.
pub fn visit_binary_expr(left: Literal, op: BinaryOp, right: Literal) -> (r: Control)
    ensures
        r@ == binary(left@, op, right@),
{
    match (&left, &right) {
        (Literal::Number(a), Literal::Number(b)) => visit_binary_numbers(*a, op, *b),
        (Literal::String(a), Literal::String(b)) => {
            match equality_operator(op) {
                Some(wanted) => boolean(wanted == (*a == *b)),
                None => {
                    if op == BinaryOp::Add {
                        let mut joined = a.clone();
                        joined.append(b.as_str());
                        Control::Value(Literal::String(joined))
                    } else {
                        operator_not_defined(op, &left, &right)
                    }
                },
            }
        },
        (Literal::String(a), Literal::Number(b)) => {
            if op == BinaryOp::Add {
                Control::Concat(a.clone(), *b)
            } else {
                operator_not_defined(op, &left, &right)
            }
        },
        (Literal::String(a), Literal::Char(c)) => {
            if op == BinaryOp::Add {
                let mut joined = a.clone();
                joined.push(*c);
                Control::Value(Literal::String(joined))
            } else {
                operator_not_defined(op, &left, &right)
            }
        },
        (Literal::Bool(a), Literal::Bool(b)) => {
            match equality_operator(op) {
                Some(wanted) => boolean(wanted == (*a == *b)),
                None => operator_not_defined(op, &left, &right),
            }
        },
        (Literal::Char(a), Literal::Char(b)) => {
            match equality_operator(op) {
                Some(wanted) => boolean(wanted == (*a == *b)),
                None => operator_not_defined(op, &left, &right),
            }
        },
        _ => operator_not_defined(op, &left, &right),
    }
}

/// The arithmetic negation of a value.
pub fn negate(value: Literal) -> (r: Control)
    ensures
        r@ == unary(UnaryOp::Minus, value@),
{
    if let Literal::Number(x) = value {
        return Control::Value(Literal::Number(x.negate()));
    }
    let mut msg = String::from_str("unary negate not supported for type '");
    msg.append(typename_from_literal(&value));
    msg.append("'");
    runtime_error(ErrorKind::OperatorNotDefined, msg)
}

/// A unary operator applied to a value.
pub fn visit_unary_expr(op: UnaryOp, value: Literal) -> (r: Control)
    ensures
        r@ == unary(op, value@),
{
    match op {
        UnaryOp::Bang => boolean(is_truthy(&value)),
        UnaryOp::Minus => negate(value),
    }
}

/// Reading the variable `name`.
pub fn visit_variable_expr(environment: &Environment, name: String) -> (r: Control)
    ensures
        r@ == variable(environment@, name@),
{
    match environment.get(&name) {
        Some(Some(value)) => Control::Value(value),
        Some(None) => {
            let mut msg = String::from_str("variable '");
            msg.append(name.as_str());
            msg.append("' was not initialized, cannot read from unititialized memory");
            runtime_error(ErrorKind::UninitializedAccess, msg)
        },
        None => undefined_variable(&name),
    }
}

/// The failure to find the variable `name`.
pub fn undefined_variable(name: &String) -> (r: Control)
    ensures
        r@ == failure(ErrorKind::UndefinedVariable, quoted(name@)),
{
    let mut msg = String::from_str("'");
    msg.append(name.as_str());
    msg.append("'");
    runtime_error(ErrorKind::UndefinedVariable, msg)
}

} // verus!
