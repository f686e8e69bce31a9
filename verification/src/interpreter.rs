//! The evaluator: walks an expression tree and produces one runtime value or
//! one runtime error.  Its behaviour is specified by `eval_spec`, a recursive
//! function over tree models; `evaluate` is proved to return exactly the
//! value, or exactly the error, that it describes.  Numbers are 64-bit signed
//! integers: `+`, `-` and `*` wrap on overflow, `/` truncates toward zero,
//! and division by zero is a runtime error.

use vstd::prelude::*;
use vstd::math::abs;
use vstd::string::StringExecFns;
use vstd::wrapping::i64_specs;
use crate::error::{ErrModel, RuntimeError};
use crate::expr::{val_text, Expr, ExprModel, LiteralValue, ValModel};
use crate::scanner::{TokenModel, TokenType};
use crate::text::{i64_text, seq_lt, text_eq, text_lt};

verus! {

/// An error blaming the operator token.
pub open spec fn op_err(op: TokenModel, msg: Seq<char>) -> ErrModel {
    ErrModel { msg, line: op.line, token: op }
}

/// The boolean runtime value for `b`.
pub open spec fn bool_val(b: bool) -> ValModel {
    if b {
        ValModel::True
    } else {
        ValModel::False
    }
}

/// Truthiness: only `false` and `nil` are falsy; every other value, zero and
/// the empty string included, is truthy.
pub open spec fn truthy(v: ValModel) -> bool {
    match v {
        ValModel::False => false,
        ValModel::Nil => false,
        _ => true,
    }
}

/// Wrapping addition of two number payloads.
pub open spec fn wadd(a: int, b: int) -> int {
    i64_specs::wrapping_add(a as i64, b as i64) as int
}

/// Wrapping subtraction of two number payloads.
pub open spec fn wsub(a: int, b: int) -> int {
    i64_specs::wrapping_sub(a as i64, b as i64) as int
}

/// Wrapping multiplication of two number payloads.
pub open spec fn wmul(a: int, b: int) -> int {
    i64_specs::wrapping_mul(a as i64, b as i64) as int
}

/// Arithmetic negation, wrapping on the smallest number.
pub open spec fn wneg(a: int) -> int {
    if a == i64::MIN {
        a
    } else {
        -a
    }
}

/// Division truncated toward zero, wrapping on the one overflowing case.
pub open spec fn wdiv(a: int, b: int) -> int
    recommends
        b != 0,
{
    if a == i64::MIN && b == -1 {
        i64::MIN as int
    } else if (a < 0) != (b < 0) {
        -((abs(a) / abs(b)) as int)
    } else {
        (abs(a) / abs(b)) as int
    }
}

/// Equality of two runtime values: the same tag and the same payload; values
/// of different tags are unequal, never an error.
pub open spec fn val_eq(a: ValModel, b: ValModel) -> bool {
    match (a, b) {
        (ValModel::Num(x), ValModel::Num(y)) => x == y,
        (ValModel::Text(x), ValModel::Text(y)) => x == y,
        (ValModel::True, ValModel::True) => true,
        (ValModel::False, ValModel::False) => true,
        (ValModel::Nil, ValModel::Nil) => true,
        _ => false,
    }
}

/// What a binary operator yields on two evaluated operands.
pub open spec fn bin_op(op: TokenModel, l: ValModel, r: ValModel) -> Result<ValModel, ErrModel> {
    if op.kind == TokenType::Minus {
        match (l, r) {
            (ValModel::Num(a), ValModel::Num(b)) => Result::Ok(ValModel::Num(wsub(a, b))),
            _ => Result::Err(op_err(op, "Operands must be numbers."@)),
        }
    } else if op.kind == TokenType::Slash {
        match (l, r) {
            (ValModel::Num(a), ValModel::Num(b)) => if b == 0 {
                Result::Err(op_err(op, "Division by zero."@))
            } else {
                Result::Ok(ValModel::Num(wdiv(a, b)))
            },
            _ => Result::Err(op_err(op, "Operands must be numbers."@)),
        }
    } else if op.kind == TokenType::Star {
        match (l, r) {
            (ValModel::Num(a), ValModel::Num(b)) => Result::Ok(ValModel::Num(wmul(a, b))),
            _ => Result::Err(op_err(op, "Operands must be numbers."@)),
        }
    } else if op.kind == TokenType::Plus {
        match (l, r) {
            (ValModel::Num(a), ValModel::Num(b)) => Result::Ok(ValModel::Num(wadd(a, b))),
            (ValModel::Text(a), ValModel::Text(b)) => Result::Ok(ValModel::Text(a + b)),
            _ => Result::Err(op_err(op, "Operands must be two numbers or two strings."@)),
        }
    } else if op.kind == TokenType::Greater {
        match (l, r) {
            (ValModel::Num(a), ValModel::Num(b)) => Result::Ok(bool_val(a > b)),
            (ValModel::Text(a), ValModel::Text(b)) => Result::Ok(bool_val(seq_lt(b, a))),
            _ => Result::Err(op_err(op, "Operands must be numbers or strings."@)),
        }
    } else if op.kind == TokenType::GreaterEqual {
        match (l, r) {
            (ValModel::Num(a), ValModel::Num(b)) => Result::Ok(bool_val(a >= b)),
            (ValModel::Text(a), ValModel::Text(b)) => Result::Ok(bool_val(!seq_lt(a, b))),
            _ => Result::Err(op_err(op, "Operands must be numbers or strings."@)),
        }
    } else if op.kind == TokenType::Less {
        match (l, r) {
            (ValModel::Num(a), ValModel::Num(b)) => Result::Ok(bool_val(a < b)),
            (ValModel::Text(a), ValModel::Text(b)) => Result::Ok(bool_val(seq_lt(a, b))),
            _ => Result::Err(op_err(op, "Operands must be numbers or strings."@)),
        }
    } else if op.kind == TokenType::LessEqual {
        match (l, r) {
            (ValModel::Num(a), ValModel::Num(b)) => Result::Ok(bool_val(a <= b)),
            (ValModel::Text(a), ValModel::Text(b)) => Result::Ok(bool_val(!seq_lt(b, a))),
            _ => Result::Err(op_err(op, "Operands must be numbers or strings."@)),
        }
    } else if op.kind == TokenType::EqualEqual {
        Result::Ok(bool_val(val_eq(l, r)))
    } else if op.kind == TokenType::BangEqual {
        Result::Ok(bool_val(!val_eq(l, r)))
    } else {
        Result::Err(op_err(op, "Invalid binary operator."@))
    }
}

/// The value, or the error, that evaluating a tree yields.  Both operands of
/// a binary operator are evaluated, left first, before the operator is
/// applied; the first error aborts evaluation.
pub open spec fn eval_spec(e: ExprModel) -> Result<ValModel, ErrModel>
    decreases e,
{
    match e {
        ExprModel::Literal { value } => Result::Ok(value),
        ExprModel::Grouping { expression } => eval_spec(*expression),
        ExprModel::Unary { operator, right } => match eval_spec(*right) {
            Result::Err(er) => Result::Err(er),
            Result::Ok(rv) => if operator.kind == TokenType::Bang {
                Result::Ok(bool_val(!truthy(rv)))
            } else if operator.kind == TokenType::Minus {
                match rv {
                    ValModel::Num(n) => Result::Ok(ValModel::Num(wneg(n))),
                    _ => Result::Err(op_err(operator, "Operand must be a number."@)),
                }
            } else {
                Result::Err(op_err(operator, "Invalid unary operator."@))
            },
        },
        ExprModel::Binary { left, operator, right } => match eval_spec(*left) {
            Result::Err(er) => Result::Err(er),
            Result::Ok(lv) => match eval_spec(*right) {
                Result::Err(er) => Result::Err(er),
                Result::Ok(rv) => bin_op(operator, lv, rv),
            },
        },
    }
}

/// Comparing any two runtime values with `==` or `!=` never errors, and
/// always yields a boolean: values of different tags are simply unequal.
pub proof fn lemma_equality_total(op: TokenModel, l: ValModel, r: ValModel)
    requires
        op.kind == TokenType::EqualEqual || op.kind == TokenType::BangEqual,
    ensures
        match bin_op(op, l, r) {
            Result::Ok(v) => v == ValModel::True || v == ValModel::False,
            Result::Err(_) => false,
        },
{
}

/// Evaluation is a pure function of the tree: evaluating equal trees yields
/// equal outcomes, so evaluating the same tree twice cannot differ.
pub proof fn lemma_eval_deterministic(a: ExprModel, b: ExprModel)
    requires
        a == b,
    ensures
        eval_spec(a) == eval_spec(b),
{
}

fn is_truthy(value: LiteralValue) -> (r: bool)
    ensures
        r == truthy(value@),
{
    match value {
        LiteralValue::False => false,
        LiteralValue::Nil => false,
        _ => true,
    }
}

fn divide(l: i64, r: i64) -> (q: i64)
    requires
        r != 0,
    ensures
        q as int == wdiv(l as int, r as int),
{
    if l == i64::MIN && r == -1 {
        return i64::MIN;
    }
    let lm: u64 = if l >= 0 {
        l as u64
    } else {
        (-(l as i128)) as u64
    };
    let rm: u64 = if r >= 0 {
        r as u64
    } else {
        (-(r as i128)) as u64
    };
    let qm: u64 = lm / rm;
    proof {
        assert(lm as int == abs(l as int));
        assert(rm as int == abs(r as int));
        assert(qm as int == abs(l as int) / abs(r as int));
        assert(qm <= lm) by (nonlinear_arith)
            requires
                qm == lm / rm,
                rm >= 1,
        ;
        if l == i64::MIN && r < 0 {
            assert(rm >= 2);
            assert(qm <= lm / 2) by (nonlinear_arith)
                requires
                    qm == lm / rm,
                    rm >= 2,
            ;
        }
    }
    if (l < 0) != (r < 0) {
        (-(qm as i128)) as i64
    } else {
        qm as i64
    }
}

/// Walks the tree and returns exactly what `eval_spec` describes for it.
fn evaluate(expr: &Expr) -> (r: Result<LiteralValue, RuntimeError>)
    ensures
        match (r, eval_spec(expr@)) {
            (Result::Ok(v), Result::Ok(m)) => v@ == m,
            (Result::Err(e), Result::Err(m)) => e@ == m,
            _ => false,
        },
    decreases *expr,
{
    match expr {
        Expr::Literal { value } => Result::Ok(value.dup()),
        Expr::Grouping { expression } => evaluate(expression),
        Expr::Unary { operator, right } => {
            let right_val = match evaluate(right) {
                Result::Ok(v) => v,
                Result::Err(e) => {
                    return Result::Err(e);
                },
            };
            match operator.token_type {
                TokenType::Bang => Result::Ok(
                    if !is_truthy(right_val) {
                        LiteralValue::True
                    } else {
                        LiteralValue::False
                    },
                ),
                TokenType::Minus => match right_val {
                    LiteralValue::Number(n) => Result::Ok(
                        LiteralValue::Number(if n == i64::MIN {
                            n
                        } else {
                            -n
                        }),
                    ),
                    _ => Result::Err(
                        RuntimeError::new(
                            "Operand must be a number.",
                            operator.line_number,
                            operator.dup(),
                        ),
                    ),
                },
                _ => Result::Err(
                    RuntimeError::new(
                        "Invalid unary operator.",
                        operator.line_number,
                        operator.dup(),
                    ),
                ),
            }
        },
        Expr::Binary { left, operator, right } => {
            let left_val = match evaluate(left) {
                Result::Ok(v) => v,
                Result::Err(e) => {
                    return Result::Err(e);
                },
            };
            let right_val = match evaluate(right) {
                Result::Ok(v) => v,
                Result::Err(e) => {
                    return Result::Err(e);
                },
            };
            match operator.token_type {
                TokenType::Minus => match (left_val, right_val) {
                    (LiteralValue::Number(l), LiteralValue::Number(r)) => Result::Ok(
                        LiteralValue::Number(l.wrapping_sub(r)),
                    ),
                    _ => Result::Err(
                        RuntimeError::new(
                            "Operands must be numbers.",
                            operator.line_number,
                            operator.dup(),
                        ),
                    ),
                },
                TokenType::Slash => match (left_val, right_val) {
                    (LiteralValue::Number(l), LiteralValue::Number(r)) => if r == 0 {
                        Result::Err(
                            RuntimeError::new(
                                "Division by zero.",
                                operator.line_number,
                                operator.dup(),
                            ),
                        )
                    } else {
                        Result::Ok(LiteralValue::Number(divide(l, r)))
                    },
                    _ => Result::Err(
                        RuntimeError::new(
                            "Operands must be numbers.",
                            operator.line_number,
                            operator.dup(),
                        ),
                    ),
                },
                TokenType::Star => match (left_val, right_val) {
                    (LiteralValue::Number(l), LiteralValue::Number(r)) => Result::Ok(
                        LiteralValue::Number(l.wrapping_mul(r)),
                    ),
                    _ => Result::Err(
                        RuntimeError::new(
                            "Operands must be numbers.",
                            operator.line_number,
                            operator.dup(),
                        ),
                    ),
                },
                TokenType::Plus => match (left_val, right_val) {
                    (LiteralValue::Number(l), LiteralValue::Number(r)) => Result::Ok(
                        LiteralValue::Number(l.wrapping_add(r)),
                    ),
                    (LiteralValue::StringValue(l), LiteralValue::StringValue(r)) => Result::Ok(
                        LiteralValue::StringValue(l.concat(r.as_str())),
                    ),
                    _ => Result::Err(
                        RuntimeError::new(
                            "Operands must be two numbers or two strings.",
                            operator.line_number,
                            operator.dup(),
                        ),
                    ),
                },
                TokenType::Greater => match (left_val, right_val) {
                    (LiteralValue::Number(l), LiteralValue::Number(r)) => Result::Ok(
                        if l > r {
                            LiteralValue::True
                        } else {
                            LiteralValue::False
                        },
                    ),
                    (LiteralValue::StringValue(l), LiteralValue::StringValue(r)) => Result::Ok(
                        if text_lt(r.as_str(), l.as_str()) {
                            LiteralValue::True
                        } else {
                            LiteralValue::False
                        },
                    ),
                    _ => Result::Err(
                        RuntimeError::new(
                            "Operands must be numbers or strings.",
                            operator.line_number,
                            operator.dup(),
                        ),
                    ),
                },
                TokenType::GreaterEqual => match (left_val, right_val) {
                    (LiteralValue::Number(l), LiteralValue::Number(r)) => Result::Ok(
                        if l >= r {
                            LiteralValue::True
                        } else {
                            LiteralValue::False
                        },
                    ),
                    (LiteralValue::StringValue(l), LiteralValue::StringValue(r)) => Result::Ok(
                        if !text_lt(l.as_str(), r.as_str()) {
                            LiteralValue::True
                        } else {
                            LiteralValue::False
                        },
                    ),
                    _ => Result::Err(
                        RuntimeError::new(
                            "Operands must be numbers or strings.",
                            operator.line_number,
                            operator.dup(),
                        ),
                    ),
                },
                TokenType::Less => match (left_val, right_val) {
                    (LiteralValue::Number(l), LiteralValue::Number(r)) => Result::Ok(
                        if l < r {
                            LiteralValue::True
                        } else {
                            LiteralValue::False
                        },
                    ),
                    (LiteralValue::StringValue(l), LiteralValue::StringValue(r)) => Result::Ok(
                        if text_lt(l.as_str(), r.as_str()) {
                            LiteralValue::True
                        } else {
                            LiteralValue::False
                        },
                    ),
                    _ => Result::Err(
                        RuntimeError::new(
                            "Operands must be numbers or strings.",
                            operator.line_number,
                            operator.dup(),
                        ),
                    ),
                },
                TokenType::LessEqual => match (left_val, right_val) {
                    (LiteralValue::Number(l), LiteralValue::Number(r)) => Result::Ok(
                        if l <= r {
                            LiteralValue::True
                        } else {
                            LiteralValue::False
                        },
                    ),
                    (LiteralValue::StringValue(l), LiteralValue::StringValue(r)) => Result::Ok(
                        if !text_lt(r.as_str(), l.as_str()) {
                            LiteralValue::True
                        } else {
                            LiteralValue::False
                        },
                    ),
                    _ => Result::Err(
                        RuntimeError::new(
                            "Operands must be numbers or strings.",
                            operator.line_number,
                            operator.dup(),
                        ),
                    ),
                },
                TokenType::EqualEqual => Result::Ok(values_equal(left_val, right_val)),
                TokenType::BangEqual => Result::Ok(
                    match values_equal(left_val, right_val) {
                        LiteralValue::True => LiteralValue::False,
                        _ => LiteralValue::True,
                    },
                ),
                _ => Result::Err(
                    RuntimeError::new(
                        "Invalid binary operator.",
                        operator.line_number,
                        operator.dup(),
                    ),
                ),
            }
        },
    }
}

fn values_equal(l: LiteralValue, r: LiteralValue) -> (b: LiteralValue)
    ensures
        b@ == bool_val(val_eq(l@, r@)),
{
    let eq: bool = match (&l, &r) {
        (LiteralValue::Number(a), LiteralValue::Number(b)) => *a == *b,
        (LiteralValue::StringValue(a), LiteralValue::StringValue(b)) => text_eq(
            a.as_str(),
            b.as_str(),
        ),
        (LiteralValue::True, LiteralValue::True) => true,
        (LiteralValue::False, LiteralValue::False) => true,
        (LiteralValue::Nil, LiteralValue::Nil) => true,
        _ => false,
    };
    if eq {
        LiteralValue::True
    } else {
        LiteralValue::False
    }
}

fn stringify(value: LiteralValue) -> (r: String)
    ensures
        r@ == val_text(value@),
{
    match value {
        LiteralValue::Number(n) => i64_text(n),
        LiteralValue::StringValue(s) => s,
        LiteralValue::True => String::from_str("true"),
        LiteralValue::False => String::from_str("false"),
        LiteralValue::Nil => String::from_str("nil"),
    }
}

/// Evaluates the tree and renders the value: the rendering of the value that
/// `eval_spec` gives, or its error.
pub fn interpret(expr: &Expr) -> (r: Result<String, RuntimeError>)
    ensures
        match (r, eval_spec(expr@)) {
            (Result::Ok(s), Result::Ok(v)) => s@ == val_text(v),
            (Result::Err(e), Result::Err(m)) => e@ == m,
            _ => false,
        },
{
    let result = match evaluate(expr) {
        Result::Ok(v) => v,
        Result::Err(e) => {
            return Result::Err(e);
        },
    };
    Result::Ok(stringify(result))
}

} // verus!
