//! The tree-walking evaluator: expressions, statements and declarations are
//! run against the scoped environment, with `print` collecting its output
//! as rendered lines. Operands of a binary operator are evaluated left to
//! right, whatever the operator; `and` and `or` short-circuit; a block pushes
//! a scope and pops it again on every exit path. Numbers are exact integers:
//! arithmetic that leaves the machine range is a runtime error, as is
//! division by zero, and both are distinct from the type errors.

use vstd::prelude::*;
use crate::ast::{Expr, Stmt, Decl, ExprModel, StmtModel, DeclModel};
use crate::token::{Token, TokenType, TokenModel, TokenLiteral, LiteralModel};
use crate::value::{LoxValue, ValueModel, LoxType, type_of, value_eq, value_text};
use crate::error::{RuntimeError, RuntimeErrorModel};
use crate::printer::{AstPrinter, render_expr};
use crate::environment::{Environment, EnvModel, env_lookup, env_assign, env_define};
use crate::text::seq_lt;

verus! {

/// The message of arithmetic that leaves the machine's integer range.
pub open spec fn overflow_msg() -> Seq<char> {
    "integer out of range"@
}

/// The message of division by zero.
pub open spec fn divide_by_zero_msg() -> Seq<char> {
    "Divide by zero"@
}

/// One evaluation step over values.
pub type ValueStep = Result<ValueModel, RuntimeErrorModel>;

/// Division truncated toward zero, as the machine divides.
pub open spec fn trunc_div(x: int, y: int) -> int {
    let xm = if x >= 0 { x } else { -x };
    let ym = if y >= 0 { y } else { -y };
    let qm = xm / ym;
    if (x < 0) != (y < 0) {
        -qm
    } else {
        qm
    }
}

/// Strict ordering of two same-typed, non-nil values: numeric order for
/// numbers, lexicographic order for strings, `false` before `true` for
/// booleans.
pub open spec fn value_lt(l: ValueModel, r: ValueModel) -> bool {
    match (l, r) {
        (ValueModel::Num(x), ValueModel::Num(y)) => x < y,
        (ValueModel::Str(x), ValueModel::Str(y)) => seq_lt(x, y),
        (ValueModel::Bool(x), ValueModel::Bool(y)) => !x && y,
        _ => false,
    }
}

/// Equality and inequality: defined for same-typed operands or when either
/// side is `Nil`; mismatched non-nil types are incompatible.
pub open spec fn eval_equality(
    l: ValueModel,
    r: ValueModel,
    negated: bool,
    line: int,
    rendered: Seq<char>,
) -> ValueStep {
    if !(l is Nil) && !(r is Nil) && type_of(l) != type_of(r) {
        Result::Err(RuntimeErrorModel::IncompatibleTypes(line, rendered, type_of(l), type_of(r)))
    } else if negated {
        Result::Ok(ValueModel::Bool(!value_eq(l, r)))
    } else {
        Result::Ok(ValueModel::Bool(value_eq(l, r)))
    }
}

/// Ordering: both operands must be non-nil and same-typed, else the types
/// are incompatible.
pub open spec fn eval_comparison(
    l: ValueModel,
    r: ValueModel,
    op: TokenType,
    line: int,
    rendered: Seq<char>,
) -> ValueStep {
    if l is Nil || r is Nil || type_of(l) != type_of(r) {
        Result::Err(RuntimeErrorModel::IncompatibleTypes(line, rendered, type_of(l), type_of(r)))
    } else if op == TokenType::Greater {
        Result::Ok(ValueModel::Bool(value_lt(r, l)))
    } else if op == TokenType::GreaterEqual {
        Result::Ok(ValueModel::Bool(!value_lt(l, r)))
    } else if op == TokenType::Less {
        Result::Ok(ValueModel::Bool(value_lt(l, r)))
    } else {
        Result::Ok(ValueModel::Bool(!value_lt(r, l)))
    }
}

/// Multiplication and division: both operands must be numbers; division by
/// zero and results outside the machine range are runtime errors, distinct
/// from the type errors.
pub open spec fn eval_factor(
    l: ValueModel,
    r: ValueModel,
    op: TokenType,
    line: int,
    rendered: Seq<char>,
) -> ValueStep {
    match (l, r) {
        (ValueModel::Num(x), ValueModel::Num(y)) => {
            if op == TokenType::Star {
                if i64::MIN <= x * y <= i64::MAX {
                    Result::Ok(ValueModel::Num(x * y))
                } else {
                    Result::Err(RuntimeErrorModel::RuntimeError(line, rendered, overflow_msg()))
                }
            } else {
                if y == 0 {
                    Result::Err(
                        RuntimeErrorModel::RuntimeError(line, rendered, divide_by_zero_msg()),
                    )
                } else if x == i64::MIN && y == -1 {
                    Result::Err(RuntimeErrorModel::RuntimeError(line, rendered, overflow_msg()))
                } else {
                    Result::Ok(ValueModel::Num(trunc_div(x, y)))
                }
            }
        },
        (_, ValueModel::Num(_)) => {
            Result::Err(RuntimeErrorModel::IncompatibleTypes(line, rendered, type_of(r), type_of(l)))
        },
        (ValueModel::Num(_), _) => {
            Result::Err(RuntimeErrorModel::IncompatibleTypes(line, rendered, type_of(l), type_of(r)))
        },
        _ => {
            Result::Err(
                RuntimeErrorModel::InoperableTypes(
                    line,
                    rendered,
                    seq![LoxType::Number],
                    type_of(l),
                    type_of(r),
                ),
            )
        },
    }
}

/// Addition and subtraction: `-` needs two numbers; `+` accepts two numbers
/// or two strings (concatenation); numeric results outside the machine range
/// are runtime errors.
pub open spec fn eval_term(
    l: ValueModel,
    r: ValueModel,
    op: TokenType,
    line: int,
    rendered: Seq<char>,
) -> ValueStep {
    if op == TokenType::Minus {
        match (l, r) {
            (ValueModel::Num(x), ValueModel::Num(y)) => {
                if i64::MIN <= x - y <= i64::MAX {
                    Result::Ok(ValueModel::Num(x - y))
                } else {
                    Result::Err(RuntimeErrorModel::RuntimeError(line, rendered, overflow_msg()))
                }
            },
            (_, ValueModel::Num(_)) => {
                Result::Err(
                    RuntimeErrorModel::IncompatibleTypes(line, rendered, type_of(r), type_of(l)),
                )
            },
            (ValueModel::Num(_), _) => {
                Result::Err(
                    RuntimeErrorModel::IncompatibleTypes(line, rendered, type_of(l), type_of(r)),
                )
            },
            _ => {
                Result::Err(
                    RuntimeErrorModel::InoperableTypes(
                        line,
                        rendered,
                        seq![LoxType::Number],
                        type_of(l),
                        type_of(r),
                    ),
                )
            },
        }
    } else {
        match (l, r) {
            (ValueModel::Num(x), ValueModel::Num(y)) => {
                if i64::MIN <= x + y <= i64::MAX {
                    Result::Ok(ValueModel::Num(x + y))
                } else {
                    Result::Err(RuntimeErrorModel::RuntimeError(line, rendered, overflow_msg()))
                }
            },
            (ValueModel::Str(x), ValueModel::Str(y)) => Result::Ok(ValueModel::Str(x + y)),
            (ValueModel::Num(_), _) => {
                Result::Err(
                    RuntimeErrorModel::IncompatibleTypes(line, rendered, type_of(l), type_of(r)),
                )
            },
            (_, ValueModel::Num(_)) => {
                Result::Err(
                    RuntimeErrorModel::IncompatibleTypes(line, rendered, type_of(r), type_of(l)),
                )
            },
            (ValueModel::Str(_), _) => {
                Result::Err(
                    RuntimeErrorModel::IncompatibleTypes(line, rendered, type_of(l), type_of(r)),
                )
            },
            (_, ValueModel::Str(_)) => {
                Result::Err(
                    RuntimeErrorModel::IncompatibleTypes(line, rendered, type_of(r), type_of(l)),
                )
            },
            _ => {
                Result::Err(
                    RuntimeErrorModel::InoperableTypes(
                        line,
                        rendered,
                        seq![LoxType::Number, LoxType::String],
                        type_of(l),
                        type_of(r),
                    ),
                )
            },
        }
    }
}

/// The model of a value-or-error result.
pub open spec fn value_result_view(r: Result<LoxValue, RuntimeError>) -> ValueStep {
    match r {
        Result::Ok(v) => Result::Ok(v@),
        Result::Err(e) => Result::Err(e@),
    }
}

fn value_less(l: &LoxValue, r: &LoxValue) -> (b: bool)
    ensures
        b == value_lt(l@, r@),
{
    match (l, r) {
        (LoxValue::Number(x), LoxValue::Number(y)) => *x < *y,
        (LoxValue::String(x), LoxValue::String(y)) => crate::text::str_lt(x.as_str(), y.as_str()),
        (LoxValue::Bool(x), LoxValue::Bool(y)) => !*x && *y,
        _ => false,
    }
}

/// Decides `==` and `!=`, exactly as `eval_equality` describes.
pub fn visit_equality_expression(expr: &Expr, left: LoxValue, op: Token, right: LoxValue) -> (r:
    Result<LoxValue, RuntimeError>)
    requires
        op@.token_type == TokenType::BangEqual || op@.token_type == TokenType::EqualEqual,
    ensures
        value_result_view(r) == eval_equality(
            left@,
            right@,
            op@.token_type == TokenType::BangEqual,
            op@.line,
            render_expr(expr@),
        ),
{
    let printer = AstPrinter;
    if !left.is_nil() && !right.is_nil() && !left.is_same_type_as(&right) {
        let rendered = printer.print_expr(expr);
        Result::Err(
            RuntimeError::IncompatibleTypes(op.line, rendered, left.lox_type(), right.lox_type()),
        )
    } else if op.token_type == TokenType::BangEqual {
        Result::Ok(LoxValue::Bool(!left.equals(&right)))
    } else {
        Result::Ok(LoxValue::Bool(left.equals(&right)))
    }
}

/// Decides `> >= < <=`, exactly as `eval_comparison` describes.
pub fn visit_comparison_expression(expr: &Expr, left: LoxValue, op: Token, right: LoxValue) -> (r:
    Result<LoxValue, RuntimeError>)
    requires
        op@.token_type == TokenType::Greater || op@.token_type == TokenType::GreaterEqual
            || op@.token_type == TokenType::Less || op@.token_type == TokenType::LessEqual,
    ensures
        value_result_view(r) == eval_comparison(
            left@,
            right@,
            op@.token_type,
            op@.line,
            render_expr(expr@),
        ),
{
    let printer = AstPrinter;
    if left.is_nil() || right.is_nil() || !left.is_same_type_as(&right) {
        let rendered = printer.print_expr(expr);
        Result::Err(
            RuntimeError::IncompatibleTypes(op.line, rendered, left.lox_type(), right.lox_type()),
        )
    } else if op.token_type == TokenType::Greater {
        Result::Ok(LoxValue::Bool(value_less(&right, &left)))
    } else if op.token_type == TokenType::GreaterEqual {
        Result::Ok(LoxValue::Bool(!value_less(&left, &right)))
    } else if op.token_type == TokenType::Less {
        Result::Ok(LoxValue::Bool(value_less(&left, &right)))
    } else {
        Result::Ok(LoxValue::Bool(!value_less(&right, &left)))
    }
}

/// Computes `*` and `/`, exactly as `eval_factor` describes.
pub fn visit_factor_expression(expr: &Expr, left: LoxValue, op: Token, right: LoxValue) -> (r:
    Result<LoxValue, RuntimeError>)
    requires
        op@.token_type == TokenType::Star || op@.token_type == TokenType::Slash,
    ensures
        value_result_view(r) == eval_factor(
            left@,
            right@,
            op@.token_type,
            op@.line,
            render_expr(expr@),
        ),
{
    let printer = AstPrinter;
    match (&left, &right) {
        (LoxValue::Number(x), LoxValue::Number(y)) => {
            if op.token_type == TokenType::Star {
                match x.checked_mul(*y) {
                    Option::Some(v) => Result::Ok(LoxValue::Number(v)),
                    Option::None => {
                        let rendered = printer.print_expr(expr);
                        let msg: String = "integer out of range".to_owned();
                        Result::Err(RuntimeError::RuntimeError(op.line, rendered, msg))
                    },
                }
            } else {
                if *y == 0 {
                    let rendered = printer.print_expr(expr);
                    let msg: String = "Divide by zero".to_owned();
                    Result::Err(RuntimeError::RuntimeError(op.line, rendered, msg))
                } else if *x == i64::MIN && *y == -1 {
                    let rendered = printer.print_expr(expr);
                    let msg: String = "integer out of range".to_owned();
                    Result::Err(RuntimeError::RuntimeError(op.line, rendered, msg))
                } else {
                    let neg = (*x < 0) != (*y < 0);
                    let xm: u64 = if *x >= 0 {
                        *x as u64
                    } else {
                        (-(*x as i128)) as u64
                    };
                    let ym: u64 = if *y >= 0 {
                        *y as u64
                    } else {
                        (-(*y as i128)) as u64
                    };
                    let qm: u64 = xm / ym;
                    proof {
                        assert(qm <= xm) by (nonlinear_arith)
                            requires
                                ym >= 1,
                                qm == xm as int / ym as int,
                                xm >= 0,
                        ;
                        if !neg && qm >= 0x8000_0000_0000_0000u64 {
                            assert(ym == 1) by (nonlinear_arith)
                                requires
                                    qm == xm as int / ym as int,
                                    xm <= 0x8000_0000_0000_0000u64,
                                    qm >= 0x8000_0000_0000_0000u64,
                                    ym >= 1,
                            ;
                            assert(false);
                        }
                    }
                    let q: i64 = if neg {
                        (-(qm as i128)) as i64
                    } else {
                        qm as i64
                    };
                    Result::Ok(LoxValue::Number(q))
                }
            }
        },
        (_, LoxValue::Number(_)) => {
            let rendered = printer.print_expr(expr);
            Result::Err(
                RuntimeError::IncompatibleTypes(
                    op.line,
                    rendered,
                    right.lox_type(),
                    left.lox_type(),
                ),
            )
        },
        (LoxValue::Number(_), _) => {
            let rendered = printer.print_expr(expr);
            Result::Err(
                RuntimeError::IncompatibleTypes(
                    op.line,
                    rendered,
                    left.lox_type(),
                    right.lox_type(),
                ),
            )
        },
        _ => {
            let rendered = printer.print_expr(expr);
            let mut supported: Vec<LoxType> = Vec::new();
            supported.push(LoxType::Number);
            proof {
                assert(supported@ =~= seq![LoxType::Number]);
            }
            Result::Err(
                RuntimeError::InoperableTypes(
                    op.line,
                    rendered,
                    supported,
                    left.lox_type(),
                    right.lox_type(),
                ),
            )
        },
    }
}

/// Computes `+` and `-`, exactly as `eval_term` describes.
pub fn visit_term_expression(expr: &Expr, left: LoxValue, op: Token, right: LoxValue) -> (r: Result<
    LoxValue,
    RuntimeError,
>)
    requires
        op@.token_type == TokenType::Plus || op@.token_type == TokenType::Minus,
    ensures
        value_result_view(r) == eval_term(
            left@,
            right@,
            op@.token_type,
            op@.line,
            render_expr(expr@),
        ),
{
    let printer = AstPrinter;
    if op.token_type == TokenType::Minus {
        match (&left, &right) {
            (LoxValue::Number(x), LoxValue::Number(y)) => {
                match x.checked_sub(*y) {
                    Option::Some(v) => Result::Ok(LoxValue::Number(v)),
                    Option::None => {
                        let rendered = printer.print_expr(expr);
                        let msg: String = "integer out of range".to_owned();
                        Result::Err(RuntimeError::RuntimeError(op.line, rendered, msg))
                    },
                }
            },
            (_, LoxValue::Number(_)) => {
                let rendered = printer.print_expr(expr);
                Result::Err(
                    RuntimeError::IncompatibleTypes(
                        op.line,
                        rendered,
                        right.lox_type(),
                        left.lox_type(),
                    ),
                )
            },
            (LoxValue::Number(_), _) => {
                let rendered = printer.print_expr(expr);
                Result::Err(
                    RuntimeError::IncompatibleTypes(
                        op.line,
                        rendered,
                        left.lox_type(),
                        right.lox_type(),
                    ),
                )
            },
            _ => {
                let rendered = printer.print_expr(expr);
                let mut supported: Vec<LoxType> = Vec::new();
                supported.push(LoxType::Number);
                proof {
                    assert(supported@ =~= seq![LoxType::Number]);
                }
                Result::Err(
                    RuntimeError::InoperableTypes(
                        op.line,
                        rendered,
                        supported,
                        left.lox_type(),
                        right.lox_type(),
                    ),
                )
            },
        }
    } else {
        match (&left, &right) {
            (LoxValue::Number(x), LoxValue::Number(y)) => {
                match x.checked_add(*y) {
                    Option::Some(v) => Result::Ok(LoxValue::Number(v)),
                    Option::None => {
                        let rendered = printer.print_expr(expr);
                        let msg: String = "integer out of range".to_owned();
                        Result::Err(RuntimeError::RuntimeError(op.line, rendered, msg))
                    },
                }
            },
            (LoxValue::String(x), LoxValue::String(y)) => {
                let joined = x.clone().concat(y.as_str());
                Result::Ok(LoxValue::String(joined))
            },
            (LoxValue::Number(_), _) => {
                let rendered = printer.print_expr(expr);
                Result::Err(
                    RuntimeError::IncompatibleTypes(
                        op.line,
                        rendered,
                        left.lox_type(),
                        right.lox_type(),
                    ),
                )
            },
            (_, LoxValue::Number(_)) => {
                let rendered = printer.print_expr(expr);
                Result::Err(
                    RuntimeError::IncompatibleTypes(
                        op.line,
                        rendered,
                        right.lox_type(),
                        left.lox_type(),
                    ),
                )
            },
            (LoxValue::String(_), _) => {
                let rendered = printer.print_expr(expr);
                Result::Err(
                    RuntimeError::IncompatibleTypes(
                        op.line,
                        rendered,
                        left.lox_type(),
                        right.lox_type(),
                    ),
                )
            },
            (_, LoxValue::String(_)) => {
                let rendered = printer.print_expr(expr);
                Result::Err(
                    RuntimeError::IncompatibleTypes(
                        op.line,
                        rendered,
                        right.lox_type(),
                        left.lox_type(),
                    ),
                )
            },
            _ => {
                let rendered = printer.print_expr(expr);
                let mut supported: Vec<LoxType> = Vec::new();
                supported.push(LoxType::Number);
                supported.push(LoxType::String);
                proof {
                    assert(supported@ =~= seq![LoxType::Number, LoxType::String]);
                }
                Result::Err(
                    RuntimeError::InoperableTypes(
                        op.line,
                        rendered,
                        supported,
                        left.lox_type(),
                        right.lox_type(),
                    ),
                )
            },
        }
    }
}


/// The message of a literal the parser never produces: a token without the
/// payload its kind promises.
pub open spec fn malformed_msg() -> Seq<char> {
    "malformed syntax tree"@
}

/// The message of a fractional literal: runtime numbers are exact integers.
pub open spec fn nonintegral_msg() -> Seq<char> {
    "number is not an integer"@
}

/// The value of a literal token: its payload, a fractional literal only
/// when its fraction is zero.
pub open spec fn literal_value(t: TokenModel, rendered: Seq<char>) -> ValueStep {
    match t.literal {
        Option::Some(LiteralModel::Int(i)) => Result::Ok(ValueModel::Num(i)),
        Option::Some(LiteralModel::Str(s)) => Result::Ok(ValueModel::Str(s)),
        Option::Some(LiteralModel::Bool(b)) => Result::Ok(ValueModel::Bool(b)),
        Option::Some(LiteralModel::Nil) => Result::Ok(ValueModel::Nil),
        Option::Some(LiteralModel::Float(w, f, _l)) => {
            if f == 0 {
                Result::Ok(ValueModel::Num(w))
            } else {
                Result::Err(RuntimeErrorModel::RuntimeError(t.line, rendered, nonintegral_msg()))
            }
        },
        Option::None => {
            Result::Err(RuntimeErrorModel::RuntimeError(t.line, rendered, malformed_msg()))
        },
    }
}

/// One evaluation step of an expression: the value or error, and the
/// environment after it. Expressions change the environment only through
/// assignment. Operands of a binary operator are evaluated left to right,
/// whatever the operator; `and` and `or` short-circuit.
pub open spec fn eval_expr_model(e: ExprModel, env: EnvModel) -> (ValueStep, EnvModel)
    decreases e,
{
    match e {
        ExprModel::Literal(t) => (literal_value(t, render_expr(e)), env),
        ExprModel::Identifier(t) => {
            match env_lookup(env, t.lexeme) {
                Option::Some(v) => (Result::Ok(v), env),
                Option::None => {
                    (Result::Err(RuntimeErrorModel::UndefinedVariable(t.line, t.lexeme)), env)
                },
            }
        },
        ExprModel::Assign(name, v) => {
            let (r1, e1) = eval_expr_model(*v, env);
            match r1 {
                Result::Err(err) => (Result::Err(err), e1),
                Result::Ok(val) => {
                    let (e2, old_v) = env_assign(e1, name.lexeme, val);
                    match old_v {
                        Option::Some(_) => (Result::Ok(ValueModel::Nil), e2),
                        Option::None => {
                            (
                                Result::Err(
                                    RuntimeErrorModel::UndefinedVariable(name.line, name.lexeme),
                                ),
                                e2,
                            )
                        },
                    }
                },
            }
        },
        ExprModel::Grouping(inner) => eval_expr_model(*inner, env),
        ExprModel::Unary(op, inner) => {
            let (r1, e1) = eval_expr_model(*inner, env);
            match r1 {
                Result::Err(err) => (Result::Err(err), e1),
                Result::Ok(v) => {
                    if op.token_type == TokenType::Minus {
                        match v {
                            ValueModel::Num(x) => {
                                if x == i64::MIN {
                                    (
                                        Result::Err(
                                            RuntimeErrorModel::RuntimeError(
                                                op.line,
                                                render_expr(e),
                                                overflow_msg(),
                                            ),
                                        ),
                                        e1,
                                    )
                                } else {
                                    (Result::Ok(ValueModel::Num(-x)), e1)
                                }
                            },
                            _ => {
                                (
                                    Result::Err(
                                        RuntimeErrorModel::WrongType(
                                            op.line,
                                            render_expr(e),
                                            type_of(v),
                                            LoxType::Number,
                                        ),
                                    ),
                                    e1,
                                )
                            },
                        }
                    } else if op.token_type == TokenType::Bang {
                        match v {
                            ValueModel::Bool(b) => (Result::Ok(ValueModel::Bool(!b)), e1),
                            _ => {
                                (
                                    Result::Err(
                                        RuntimeErrorModel::WrongType(
                                            op.line,
                                            render_expr(e),
                                            type_of(v),
                                            LoxType::Bool,
                                        ),
                                    ),
                                    e1,
                                )
                            },
                        }
                    } else {
                        (
                            Result::Err(
                                RuntimeErrorModel::RuntimeError(
                                    op.line,
                                    render_expr(e),
                                    malformed_msg(),
                                ),
                            ),
                            e1,
                        )
                    }
                },
            }
        },
        ExprModel::Binary(l, op, r) => {
            let (r1, e1) = eval_expr_model(*l, env);
            match r1 {
                Result::Err(err) => (Result::Err(err), e1),
                Result::Ok(lv) => {
                    let (r2, e2) = eval_expr_model(*r, e1);
                    match r2 {
                        Result::Err(err) => (Result::Err(err), e2),
                        Result::Ok(rv) => {
                            let k = op.token_type;
                            if k == TokenType::BangEqual || k == TokenType::EqualEqual {
                                (
                                    eval_equality(
                                        lv,
                                        rv,
                                        k == TokenType::BangEqual,
                                        op.line,
                                        render_expr(e),
                                    ),
                                    e2,
                                )
                            } else if k == TokenType::Greater || k == TokenType::GreaterEqual || k
                                == TokenType::Less || k == TokenType::LessEqual {
                                (eval_comparison(lv, rv, k, op.line, render_expr(e)), e2)
                            } else if k == TokenType::Star || k == TokenType::Slash {
                                (eval_factor(lv, rv, k, op.line, render_expr(e)), e2)
                            } else if k == TokenType::Plus || k == TokenType::Minus {
                                (eval_term(lv, rv, k, op.line, render_expr(e)), e2)
                            } else {
                                (
                                    Result::Err(
                                        RuntimeErrorModel::RuntimeError(
                                            op.line,
                                            render_expr(e),
                                            malformed_msg(),
                                        ),
                                    ),
                                    e2,
                                )
                            }
                        },
                    }
                },
            }
        },
        ExprModel::Logical(l, op, r) => {
            let (r1, e1) = eval_expr_model(*l, env);
            match r1 {
                Result::Err(err) => (Result::Err(err), e1),
                Result::Ok(lv) => {
                    match lv {
                        ValueModel::Bool(b) => {
                            if op.token_type == TokenType::And && !b {
                                (Result::Ok(ValueModel::Bool(false)), e1)
                            } else if op.token_type == TokenType::Or && b {
                                (Result::Ok(ValueModel::Bool(true)), e1)
                            } else if op.token_type == TokenType::And || op.token_type
                                == TokenType::Or {
                                let (r2, e2) = eval_expr_model(*r, e1);
                                match r2 {
                                    Result::Err(err) => (Result::Err(err), e2),
                                    Result::Ok(rv) => {
                                        match rv {
                                            ValueModel::Bool(rb) => {
                                                (Result::Ok(ValueModel::Bool(rb)), e2)
                                            },
                                            _ => {
                                                (
                                                    Result::Err(
                                                        RuntimeErrorModel::WrongType(
                                                            op.line,
                                                            render_expr(*r),
                                                            type_of(rv),
                                                            LoxType::Bool,
                                                        ),
                                                    ),
                                                    e2,
                                                )
                                            },
                                        }
                                    },
                                }
                            } else {
                                (
                                    Result::Err(
                                        RuntimeErrorModel::RuntimeError(
                                            op.line,
                                            render_expr(e),
                                            malformed_msg(),
                                        ),
                                    ),
                                    e1,
                                )
                            }
                        },
                        _ => {
                            (
                                Result::Err(
                                    RuntimeErrorModel::WrongType(
                                        op.line,
                                        render_expr(*l),
                                        type_of(lv),
                                        LoxType::Bool,
                                    ),
                                ),
                                e1,
                            )
                        },
                    }
                },
            }
        },
    }
}

/// One evaluation step of a statement: the value or error, the environment
/// after it, and the renderings that `print` wrote, in order.
pub open spec fn eval_stmt_model(s: StmtModel, env: EnvModel) -> (ValueStep, EnvModel, Seq<
    Seq<char>,
>)
    decreases s,
{
    match s {
        StmtModel::Expression(e) => {
            let (r, e1) = eval_expr_model(e, env);
            (r, e1, Seq::empty())
        },
        StmtModel::Print(e) => {
            let (r, e1) = eval_expr_model(e, env);
            match r {
                Result::Err(err) => (Result::Err(err), e1, Seq::empty()),
                Result::Ok(v) => (Result::Ok(ValueModel::Nil), e1, seq![value_text(v)]),
            }
        },
        StmtModel::If(t, c, th, el) => {
            let (r, e1) = eval_expr_model(c, env);
            match r {
                Result::Err(err) => (Result::Err(err), e1, Seq::empty()),
                Result::Ok(v) => {
                    match v {
                        ValueModel::Bool(b) => {
                            if b {
                                eval_stmt_model(*th, e1)
                            } else {
                                match el {
                                    Option::Some(other) => eval_stmt_model(*other, e1),
                                    Option::None => (Result::Ok(ValueModel::Nil), e1, Seq::empty()),
                                }
                            }
                        },
                        _ => {
                            (
                                Result::Err(
                                    RuntimeErrorModel::WrongType(
                                        t.line,
                                        render_expr(c),
                                        type_of(v),
                                        LoxType::Bool,
                                    ),
                                ),
                                e1,
                                Seq::empty(),
                            )
                        },
                    }
                },
            }
        },
        StmtModel::Block(ds) => {
            let (r, e1, out) = eval_decls_model(ds, env.push(Seq::empty()), 0);
            let popped = e1.take(e1.len() - 1);
            match r {
                Result::Err(err) => (Result::Err(err), popped, out),
                Result::Ok(_) => (Result::Ok(ValueModel::Nil), popped, out),
            }
        },
    }
}

/// Evaluation of the declarations `ds[i..]` in order, stopping at the first
/// error; the printed renderings of all executed declarations are kept in
/// order.
pub open spec fn eval_decls_model(ds: Seq<DeclModel>, env: EnvModel, i: int) -> (
    ValueStep,
    EnvModel,
    Seq<Seq<char>>,
)
    decreases ds, ds.len() - i,
{
    if i < 0 || i >= ds.len() {
        (Result::Ok(ValueModel::Nil), env, Seq::empty())
    } else {
        let (r, e1, out1) = eval_decl_model(ds[i], env);
        match r {
            Result::Err(err) => (Result::Err(err), e1, out1),
            Result::Ok(_) => {
                let (r2, e2, out2) = eval_decls_model(ds, e1, i + 1);
                (r2, e2, out1 + out2)
            },
        }
    }
}

/// One evaluation step of a declaration: a variable declaration evaluates
/// its initializer (`Nil` when absent), binds the name in the innermost
/// scope, and yields the bound value; any other declaration is its
/// statement.
pub open spec fn eval_decl_model(d: DeclModel, env: EnvModel) -> (ValueStep, EnvModel, Seq<
    Seq<char>,
>)
    decreases d,
{
    match d {
        DeclModel::Declaration(name, init) => {
            match init {
                Option::None => {
                    (
                        Result::Ok(ValueModel::Nil),
                        env_define(env, name.lexeme, ValueModel::Nil),
                        Seq::empty(),
                    )
                },
                Option::Some(e) => {
                    let (r, e1) = eval_expr_model(e, env);
                    match r {
                        Result::Err(err) => (Result::Err(err), e1, Seq::empty()),
                        Result::Ok(v) => {
                            (Result::Ok(v), env_define(e1, name.lexeme, v), Seq::empty())
                        },
                    }
                },
            }
        },
        DeclModel::Statement(s) => eval_stmt_model(s, env),
    }
}


/// The models of a list of printed lines.
pub open spec fn strings_view(v: Seq<String>) -> Seq<Seq<char>> {
    v.map_values(|s: String| s@)
}

/// Evaluates an expression against the environment, exactly as
/// `eval_expr_model` describes: the value or error comes back, and the
/// environment moves to the model's successor state.
#[verifier::rlimit(100)]
pub fn eval_expr(expr: &Expr, env: &mut Environment) -> (r: Result<LoxValue, RuntimeError>)
    requires
        old(env).wf(),
    ensures
        final(env).wf(),
        final(env)@.len() == old(env)@.len(),
        value_result_view(r) == eval_expr_model(expr@, old(env)@).0,
        final(env)@ == eval_expr_model(expr@, old(env)@).1,
    decreases *expr,
{
    let ghost e0 = env@;
    match expr {
        Expr::Literal(t) => {
            match &t.literal {
                Option::Some(TokenLiteral::Integer(i)) => Result::Ok(LoxValue::Number(*i)),
                Option::Some(TokenLiteral::String(sv)) => {
                    Result::Ok(LoxValue::String(sv.clone()))
                },
                Option::Some(TokenLiteral::Bool(b)) => Result::Ok(LoxValue::Bool(*b)),
                Option::Some(TokenLiteral::Nil) => Result::Ok(LoxValue::Nil),
                Option::Some(TokenLiteral::Float(w, f, _l)) => {
                    if *f == 0 {
                        Result::Ok(LoxValue::Number(*w))
                    } else {
                        let printer = AstPrinter;
                        let rendered = printer.print_expr(expr);
                        let msg: String = "number is not an integer".to_owned();
                        Result::Err(RuntimeError::RuntimeError(t.line, rendered, msg))
                    }
                },
                Option::None => {
                    let printer = AstPrinter;
                    let rendered = printer.print_expr(expr);
                    let msg: String = "malformed syntax tree".to_owned();
                    Result::Err(RuntimeError::RuntimeError(t.line, rendered, msg))
                },
            }
        },
        Expr::Identifier(t) => {
            match env.get(&t.lexeme) {
                Option::Some(v) => Result::Ok(v),
                Option::None => {
                    Result::Err(RuntimeError::UndefinedVariable(t.line, t.lexeme.clone()))
                },
            }
        },
        Expr::Assign(name, v) => {
            let r1 = eval_expr(&**v, env);
            match r1 {
                Result::Err(e) => Result::Err(e),
                Result::Ok(val) => {
                    match env.update(name.lexeme.clone(), val) {
                        Option::Some(_) => Result::Ok(LoxValue::Nil),
                        Option::None => {
                            Result::Err(
                                RuntimeError::UndefinedVariable(name.line, name.lexeme.clone()),
                            )
                        },
                    }
                },
            }
        },
        Expr::Grouping(inner) => eval_expr(&**inner, env),
        Expr::Unary(op, inner) => {
            let r1 = eval_expr(&**inner, env);
            match r1 {
                Result::Err(e) => Result::Err(e),
                Result::Ok(v) => {
                    if op.token_type == TokenType::Minus {
                        match &v {
                            LoxValue::Number(x) => {
                                if *x == i64::MIN {
                                    let printer = AstPrinter;
                                    let rendered = printer.print_expr(expr);
                                    let msg: String = "integer out of range".to_owned();
                                    Result::Err(RuntimeError::RuntimeError(op.line, rendered, msg))
                                } else {
                                    Result::Ok(LoxValue::Number(-*x))
                                }
                            },
                            _ => {
                                let printer = AstPrinter;
                                let rendered = printer.print_expr(expr);
                                Result::Err(
                                    RuntimeError::WrongType(
                                        op.line,
                                        rendered,
                                        v.lox_type(),
                                        LoxType::Number,
                                    ),
                                )
                            },
                        }
                    } else if op.token_type == TokenType::Bang {
                        match &v {
                            LoxValue::Bool(b) => Result::Ok(LoxValue::Bool(!*b)),
                            _ => {
                                let printer = AstPrinter;
                                let rendered = printer.print_expr(expr);
                                Result::Err(
                                    RuntimeError::WrongType(
                                        op.line,
                                        rendered,
                                        v.lox_type(),
                                        LoxType::Bool,
                                    ),
                                )
                            },
                        }
                    } else {
                        let printer = AstPrinter;
                        let rendered = printer.print_expr(expr);
                        let msg: String = "malformed syntax tree".to_owned();
                        Result::Err(RuntimeError::RuntimeError(op.line, rendered, msg))
                    }
                },
            }
        },
        Expr::Binary(l, op, r_) => {
            let r1 = eval_expr(&**l, env);
            match r1 {
                Result::Err(e) => Result::Err(e),
                Result::Ok(lv) => {
                    let r2 = eval_expr(&**r_, env);
                    match r2 {
                        Result::Err(e) => Result::Err(e),
                        Result::Ok(rv) => {
                            let k = op.token_type;
                            if k == TokenType::BangEqual || k == TokenType::EqualEqual {
                                visit_equality_expression(expr, lv, op.duplicate(), rv)
                            } else if k == TokenType::Greater || k == TokenType::GreaterEqual || k
                                == TokenType::Less || k == TokenType::LessEqual {
                                visit_comparison_expression(expr, lv, op.duplicate(), rv)
                            } else if k == TokenType::Star || k == TokenType::Slash {
                                visit_factor_expression(expr, lv, op.duplicate(), rv)
                            } else if k == TokenType::Plus || k == TokenType::Minus {
                                visit_term_expression(expr, lv, op.duplicate(), rv)
                            } else {
                                let printer = AstPrinter;
                                let rendered = printer.print_expr(expr);
                                let msg: String = "malformed syntax tree".to_owned();
                                Result::Err(RuntimeError::RuntimeError(op.line, rendered, msg))
                            }
                        },
                    }
                },
            }
        },
        Expr::Logical(l, op, r_) => {
            let r1 = eval_expr(&**l, env);
            match r1 {
                Result::Err(e) => Result::Err(e),
                Result::Ok(lv) => {
                    match &lv {
                        LoxValue::Bool(b) => {
                            if op.token_type == TokenType::And && !*b {
                                Result::Ok(LoxValue::Bool(false))
                            } else if op.token_type == TokenType::Or && *b {
                                Result::Ok(LoxValue::Bool(true))
                            } else if op.token_type == TokenType::And || op.token_type
                                == TokenType::Or {
                                let r2 = eval_expr(&**r_, env);
                                match r2 {
                                    Result::Err(e) => Result::Err(e),
                                    Result::Ok(rv) => {
                                        match &rv {
                                            LoxValue::Bool(rb) => Result::Ok(LoxValue::Bool(*rb)),
                                            _ => {
                                                let printer = AstPrinter;
                                                let rendered = printer.print_expr(&**r_);
                                                Result::Err(
                                                    RuntimeError::WrongType(
                                                        op.line,
                                                        rendered,
                                                        rv.lox_type(),
                                                        LoxType::Bool,
                                                    ),
                                                )
                                            },
                                        }
                                    },
                                }
                            } else {
                                let printer = AstPrinter;
                                let rendered = printer.print_expr(expr);
                                let msg: String = "malformed syntax tree".to_owned();
                                Result::Err(RuntimeError::RuntimeError(op.line, rendered, msg))
                            }
                        },
                        _ => {
                            let printer = AstPrinter;
                            let rendered = printer.print_expr(&**l);
                            Result::Err(
                                RuntimeError::WrongType(
                                    op.line,
                                    rendered,
                                    lv.lox_type(),
                                    LoxType::Bool,
                                ),
                            )
                        },
                    }
                },
            }
        },
    }
}

/// Runs a statement against the environment, exactly as `eval_stmt_model`
/// describes; what `print` writes is appended to `out` in order.
#[verifier::rlimit(100)]
pub fn eval_stmt(s: &Stmt, env: &mut Environment, out: &mut Vec<String>) -> (r: Result<
    LoxValue,
    RuntimeError,
>)
    requires
        old(env).wf(),
    ensures
        final(env).wf(),
        final(env)@.len() == old(env)@.len(),
        value_result_view(r) == eval_stmt_model(s@, old(env)@).0,
        final(env)@ == eval_stmt_model(s@, old(env)@).1,
        strings_view(final(out)@) == strings_view(old(out)@) + eval_stmt_model(s@, old(env)@).2,
    decreases *s,
{
    let ghost e0 = env@;
    let ghost out0 = out@;
    match s {
        Stmt::Expression(e) => {
            let r = eval_expr(e, env);
            assert(strings_view(out@) =~= strings_view(out0) + eval_stmt_model(s@, e0).2);
            r
        },
        Stmt::Print(e) => {
            let r = eval_expr(e, env);
            match r {
                Result::Err(x) => {
                    assert(strings_view(out@) =~= strings_view(out0) + eval_stmt_model(s@, e0).2);
                    Result::Err(x)
                },
                Result::Ok(v) => {
                    let text = v.to_text();
                    out.push(text);
                    proof {
                        assert(strings_view(out@) =~= strings_view(out0).push(
                            out@[out@.len() - 1]@,
                        ));
                        assert(strings_view(out@) =~= strings_view(out0) + eval_stmt_model(
                            s@,
                            e0,
                        ).2);
                    }
                    Result::Ok(LoxValue::Nil)
                },
            }
        },
        Stmt::If(t, c, th, el) => {
            let r = eval_expr(c, env);
            match r {
                Result::Err(x) => {
                    assert(strings_view(out@) =~= strings_view(out0) + eval_stmt_model(s@, e0).2);
                    Result::Err(x)
                },
                Result::Ok(v) => {
                    match &v {
                        LoxValue::Bool(b) => {
                            if *b {
                                eval_stmt(&**th, env, out)
                            } else {
                                match el {
                                    Option::Some(other) => eval_stmt(&**other, env, out),
                                    Option::None => {
                                        assert(strings_view(out@) =~= strings_view(out0)
                                            + eval_stmt_model(s@, e0).2);
                                        Result::Ok(LoxValue::Nil)
                                    },
                                }
                            }
                        },
                        _ => {
                            let printer = AstPrinter;
                            let rendered = printer.print_expr(c);
                            assert(strings_view(out@) =~= strings_view(out0) + eval_stmt_model(
                                s@,
                                e0,
                            ).2);
                            Result::Err(
                                RuntimeError::WrongType(
                                    t.line,
                                    rendered,
                                    v.lox_type(),
                                    LoxType::Bool,
                                ),
                            )
                        },
                    }
                },
            }
        },
        Stmt::Block(ds) => {
            env.create_enclosing();
            proof {
                assert(decreases_to!(*s => s->Block_0));
                assert(decreases_to!(s->Block_0 => s->Block_0@));
            }
            let r = eval_decls(ds, env, out, 0);
            let _ = env.drop_enclosing();
            match r {
                Result::Err(e) => Result::Err(e),
                Result::Ok(_) => Result::Ok(LoxValue::Nil),
            }
        },
    }
}

/// Runs the declarations `ds[i..]` in order against the environment,
/// exactly as `eval_decls_model` describes, stopping at the first error.
#[verifier::rlimit(100)]
pub fn eval_decls(ds: &Vec<Decl>, env: &mut Environment, out: &mut Vec<String>, i: usize) -> (r:
    Result<LoxValue, RuntimeError>)
    requires
        old(env).wf(),
        i <= ds@.len(),
    ensures
        final(env).wf(),
        final(env)@.len() == old(env)@.len(),
        value_result_view(r) == eval_decls_model(
            crate::ast::decls_model(ds@, 0),
            old(env)@,
            i as int,
        ).0,
        final(env)@ == eval_decls_model(crate::ast::decls_model(ds@, 0), old(env)@, i as int).1,
        strings_view(final(out)@) == strings_view(old(out)@) + eval_decls_model(
            crate::ast::decls_model(ds@, 0),
            old(env)@,
            i as int,
        ).2,
    decreases ds@, ds@.len() - i,
{
    let ghost e0 = env@;
    let ghost out0 = out@;
    let ghost dsm = crate::ast::decls_model(ds@, 0);
    proof {
        crate::ast::lemma_decls_model_len(ds@, 0);
    }
    if i >= ds.len() {
        assert(strings_view(out@) =~= strings_view(out0) + eval_decls_model(dsm, e0, i as int).2);
        Result::Ok(LoxValue::Nil)
    } else {
        proof {
            crate::ast::lemma_decls_model_index(ds@, 0, i as int);
            assert(decreases_to!(ds@ => ds@[i as int]));
        }
        let r = eval_decl(&ds[i], env, out);
        match r {
            Result::Err(e) => Result::Err(e),
            Result::Ok(_) => {
                let r2 = eval_decls(ds, env, out, i + 1);
                proof {
                    assert(strings_view(out@) =~= strings_view(out0) + eval_decls_model(
                        dsm,
                        e0,
                        i as int,
                    ).2);
                }
                r2
            },
        }
    }
}

/// Runs one declaration against the environment, exactly as
/// `eval_decl_model` describes: a variable declaration binds its name in
/// the innermost scope and yields the bound value; what `print` writes is
/// appended to `out`.
#[verifier::rlimit(100)]
pub fn eval_decl(d: &Decl, env: &mut Environment, out: &mut Vec<String>) -> (r: Result<
    LoxValue,
    RuntimeError,
>)
    requires
        old(env).wf(),
    ensures
        final(env).wf(),
        final(env)@.len() == old(env)@.len(),
        value_result_view(r) == eval_decl_model(d@, old(env)@).0,
        final(env)@ == eval_decl_model(d@, old(env)@).1,
        strings_view(final(out)@) == strings_view(old(out)@) + eval_decl_model(d@, old(env)@).2,
    decreases *d,
{
    let ghost e0 = env@;
    let ghost out0 = out@;
    match d {
        Decl::Declaration(name, init) => {
            match init {
                Option::None => {
                    env.define(name.lexeme.clone(), LoxValue::Nil);
                    assert(strings_view(out@) =~= strings_view(out0) + eval_decl_model(d@, e0).2);
                    Result::Ok(LoxValue::Nil)
                },
                Option::Some(e) => {
                    let r = eval_expr(e, env);
                    match r {
                        Result::Err(x) => {
                            assert(strings_view(out@) =~= strings_view(out0) + eval_decl_model(
                                d@,
                                e0,
                            ).2);
                            Result::Err(x)
                        },
                        Result::Ok(v) => {
                            let bound = v.duplicate();
                            env.define(name.lexeme.clone(), v);
                            assert(strings_view(out@) =~= strings_view(out0) + eval_decl_model(
                                d@,
                                e0,
                            ).2);
                            Result::Ok(bound)
                        },
                    }
                },
            }
        },
        Decl::Statement(st) => eval_stmt(st, env, out),
    }
}

/// Evaluates one top-level declaration: the value or error, and the lines
/// that `print` wrote, exactly as `eval_decl_model` describes. A runtime
/// error abandons only this declaration; the environment keeps everything
/// committed before the failure.
pub fn evaluate(decl: &Decl, env: &mut Environment) -> (r: (
    Result<LoxValue, RuntimeError>,
    Vec<String>,
))
    requires
        old(env).wf(),
    ensures
        final(env).wf(),
        value_result_view(r.0) == eval_decl_model(decl@, old(env)@).0,
        final(env)@ == eval_decl_model(decl@, old(env)@).1,
        strings_view(r.1@) == eval_decl_model(decl@, old(env)@).2,
{
    let mut out: Vec<String> = Vec::new();
    let r = eval_decl(decl, env, &mut out);
    proof {
        assert(strings_view(Seq::<String>::empty()) =~= Seq::<Seq<char>>::empty());
        assert(strings_view(out@) =~= eval_decl_model(decl@, old(env)@).2);
    }
    (r, out)
}

} // verus!
