//! The expression tree built by the parser, the runtime values that
//! evaluation produces, and a parenthesized rendering of trees.

use vstd::prelude::*;
use vstd::string::StringExecFns;
use crate::scanner::{Token, TokenModel};
use crate::text::i64_text;
use crate::text::int_digits;

verus! {

/// A runtime value: a 64-bit signed number, a string, a boolean, or nil.
/// It is also the payload of a `Literal` node.
#[derive(Debug)]
pub enum LiteralValue {
    Number(i64),
    StringValue(String),
    True,
    False,
    Nil,
}

/// The mathematical content of a runtime value.
pub enum ValModel {
    Num(int),
    Text(Seq<char>),
    True,
    False,
    Nil,
}

impl View for LiteralValue {
    type V = ValModel;

    open spec fn view(&self) -> ValModel {
        match self {
            LiteralValue::Number(n) => ValModel::Num(*n as int),
            LiteralValue::StringValue(s) => ValModel::Text(s@),
            LiteralValue::True => ValModel::True,
            LiteralValue::False => ValModel::False,
            LiteralValue::Nil => ValModel::Nil,
        }
    }
}

impl LiteralValue {
    /// A copy of this value, with the same content.
    pub fn dup(&self) -> (r: Self)
        ensures
            r@ == self@,
    {
        match self {
            LiteralValue::Number(n) => LiteralValue::Number(*n),
            LiteralValue::StringValue(s) => LiteralValue::StringValue(s.clone()),
            LiteralValue::True => LiteralValue::True,
            LiteralValue::False => LiteralValue::False,
            LiteralValue::Nil => LiteralValue::Nil,
        }
    }
}

/// An expression tree.  Each node owns its children; a node carries no line
/// of its own, diagnostics borrow the operator token's line.
#[derive(Debug)]
pub enum Expr {
    Binary { left: Box<Expr>, operator: Token, right: Box<Expr> },
    Grouping { expression: Box<Expr> },
    Literal { value: LiteralValue },
    Unary { operator: Token, right: Box<Expr> },
}

/// The mathematical content of an expression tree.
pub enum ExprModel {
    Binary { left: Box<ExprModel>, operator: TokenModel, right: Box<ExprModel> },
    Grouping { expression: Box<ExprModel> },
    Literal { value: ValModel },
    Unary { operator: TokenModel, right: Box<ExprModel> },
}

/// The model of an expression tree, node by node.
pub open spec fn expr_view(e: Expr) -> ExprModel
    decreases e,
{
    match e {
        Expr::Binary { left, operator, right } => ExprModel::Binary {
            left: Box::new(expr_view(*left)),
            operator: operator@,
            right: Box::new(expr_view(*right)),
        },
        Expr::Grouping { expression } => ExprModel::Grouping {
            expression: Box::new(expr_view(*expression)),
        },
        Expr::Literal { value } => ExprModel::Literal { value: value@ },
        Expr::Unary { operator, right } => ExprModel::Unary {
            operator: operator@,
            right: Box::new(expr_view(*right)),
        },
    }
}

impl View for Expr {
    type V = ExprModel;

    open spec fn view(&self) -> ExprModel {
        expr_view(*self)
    }
}

/// The rendering of a runtime value: numbers in decimal, strings as their
/// text, `true`, `false` and `nil` as those words.
pub open spec fn val_text(v: ValModel) -> Seq<char> {
    match v {
        ValModel::Num(n) => int_digits(n),
        ValModel::Text(s) => s,
        ValModel::True => "true"@,
        ValModel::False => "false"@,
        ValModel::Nil => "nil"@,
    }
}

/// The parenthesized rendering of an expression tree, operators first.
pub open spec fn expr_text(e: ExprModel) -> Seq<char>
    decreases e,
{
    match e {
        ExprModel::Binary { left, operator, right } => "("@ + operator.lexeme + " "@ + expr_text(
            *left,
        ) + " "@ + expr_text(*right) + ")"@,
        ExprModel::Grouping { expression } => "(group "@ + expr_text(*expression) + ")"@,
        ExprModel::Literal { value } => val_text(value),
        ExprModel::Unary { operator, right } => "("@ + operator.lexeme + " "@ + expr_text(*right)
            + ")"@,
    }
}

impl LiteralValue {
    fn to_string(&self) -> (r: String)
        ensures
            r@ == val_text(self@),
    {
        match self {
            LiteralValue::Number(n) => i64_text(*n),
            LiteralValue::StringValue(s) => s.clone(),
            LiteralValue::True => String::from_str("true"),
            LiteralValue::False => String::from_str("false"),
            LiteralValue::Nil => String::from_str("nil"),
        }
    }
}

impl Expr {
    /// Renders the tree with each operator before its parenthesized operands.
    pub fn to_string(&self) -> (r: String)
        ensures
            r@ == expr_text(self@),
        decreases *self,
    {
        match self {
            Expr::Binary { left, operator, right } => {
                let mut s = String::from_str("(");
                s.append(operator.lexeme.as_str());
                s.append(" ");
                let lt = left.to_string();
                s.append(lt.as_str());
                s.append(" ");
                let rt = right.to_string();
                s.append(rt.as_str());
                s.append(")");
                proof {
                    assert(s@ =~= expr_text(self@));
                }
                s
            },
            Expr::Grouping { expression } => {
                let mut s = String::from_str("(group ");
                let it = expression.to_string();
                s.append(it.as_str());
                s.append(")");
                proof {
                    assert(s@ =~= expr_text(self@));
                }
                s
            },
            Expr::Literal { value } => value.to_string(),
            Expr::Unary { operator, right } => {
                let mut s = String::from_str("(");
                s.append(operator.lexeme.as_str());
                s.append(" ");
                let rt = right.to_string();
                s.append(rt.as_str());
                s.append(")");
                proof {
                    assert(s@ =~= expr_text(self@));
                }
                s
            },
        }
    }
}

} // verus!
