//! The recursive-descent parser: from a filtered token sequence to an
//! ordered sequence of results, one per top-level declaration, continuing
//! past failures by synchronizing to the next statement boundary.
//!
//! The spec functions in this module are the mathematical description of the
//! parser, production by production in precedence order; every executable
//! function is proved to return exactly what its spec function says. Reading
//! past the end of the token sequence acts as reading `Eof`, so the parser is
//! total: it never panics, whatever the tokens.

use vstd::prelude::*;
use crate::token::{Token, TokenType, TokenModel};
use crate::ast::{Expr, Stmt, Decl, ExprModel, StmtModel, DeclModel};
use crate::error::{ParseError, ParseErrorModel};
use crate::printer::render_expr;

verus! {

/// The kind of the token at `pos`; `Eof` beyond the end.
pub open spec fn kind_at(t: Seq<TokenModel>, pos: int) -> TokenType {
    if 0 <= pos < t.len() {
        t[pos].token_type
    } else {
        TokenType::Eof
    }
}

/// The line of the token at `pos`; the last token's line beyond the end.
pub open spec fn line_at(t: Seq<TokenModel>, pos: int) -> int {
    if 0 <= pos < t.len() {
        t[pos].line
    } else if t.len() > 0 {
        t[t.len() - 1].line
    } else {
        1
    }
}

/// The lexeme of the token at `pos`; empty beyond the end.
pub open spec fn lexeme_at(t: Seq<TokenModel>, pos: int) -> Seq<char> {
    if 0 <= pos < t.len() {
        t[pos].lexeme
    } else {
        Seq::empty()
    }
}

/// The token at `pos`; a synthetic `Eof` token beyond the end.
pub open spec fn tok_at(t: Seq<TokenModel>, pos: int) -> TokenModel {
    if 0 <= pos < t.len() {
        t[pos]
    } else {
        TokenModel {
            token_type: TokenType::Eof,
            lexeme: Seq::empty(),
            literal: Option::None,
            line: line_at(t, pos),
        }
    }
}

/// A position clamped into `[lo, n]`. Productions resume at clamped
/// positions, which makes the descent total by construction; a clamp never
/// moves a position that a production actually reached.
pub open spec fn step(p: int, lo: int, n: int) -> int {
    if p < lo {
        lo
    } else if p > n {
        n
    } else {
        p
    }
}

/// The number of tokens left at `pos`, floored at zero; the termination
/// measure of every production.
pub open spec fn rem(t: Seq<TokenModel>, pos: int) -> int {
    if t.len() - pos >= 0 {
        t.len() - pos
    } else {
        0
    }
}

/// One parsing step: the node or error, and the position after it.
pub type ExprStep = (Result<ExprModel, ParseErrorModel>, int);

/// The diagnostic name of a token kind.
pub open spec fn kind_text(k: TokenType) -> Seq<char> {
    match k {
        TokenType::LeftParen => "LeftParen"@,
        TokenType::RightParen => "RightParen"@,
        TokenType::LeftBrace => "LeftBrace"@,
        TokenType::RightBrace => "RightBrace"@,
        TokenType::Comma => "Comma"@,
        TokenType::Dot => "Dot"@,
        TokenType::Minus => "Minus"@,
        TokenType::Plus => "Plus"@,
        TokenType::SemiColon => "SemiColon"@,
        TokenType::Slash => "Slash"@,
        TokenType::Star => "Star"@,
        TokenType::Bang => "Bang"@,
        TokenType::BangEqual => "BangEqual"@,
        TokenType::Equal => "Equal"@,
        TokenType::EqualEqual => "EqualEqual"@,
        TokenType::Greater => "Greater"@,
        TokenType::GreaterEqual => "GreaterEqual"@,
        TokenType::Less => "Less"@,
        TokenType::LessEqual => "LessEqual"@,
        TokenType::Identifier => "Identifier"@,
        TokenType::String => "String"@,
        TokenType::Integer => "Integer"@,
        TokenType::Float => "Float"@,
        TokenType::And => "And"@,
        TokenType::Class => "Class"@,
        TokenType::Else => "Else"@,
        TokenType::False => "False"@,
        TokenType::Fun => "Fun"@,
        TokenType::Fn => "Fn"@,
        TokenType::For => "For"@,
        TokenType::If => "If"@,
        TokenType::Nil => "Nil"@,
        TokenType::Or => "Or"@,
        TokenType::Print => "Print"@,
        TokenType::Return => "Return"@,
        TokenType::Super => "Super"@,
        TokenType::This => "This"@,
        TokenType::True => "True"@,
        TokenType::Var => "Var"@,
        TokenType::While => "While"@,
        TokenType::SingleLineComment => "SingleLineComment"@,
        TokenType::Whitespace => "Whitespace"@,
        TokenType::Eof => "Eof"@,
    }
}

/// `primary`: literals, identifiers, and parenthesized expressions.
#[verifier::opaque]
pub open spec fn parse_primary(t: Seq<TokenModel>, pos: int) -> ExprStep
    decreases rem(t, pos), 0int,
{
    let k = kind_at(t, pos);
    if k == TokenType::Eof {
        (Result::Err(ParseErrorModel::UnexpectedEof(line_at(t, pos))), pos)
    } else if k == TokenType::True || k == TokenType::False || k == TokenType::Nil || k
        == TokenType::Integer || k == TokenType::Float || k == TokenType::String {
        (Result::Ok(ExprModel::Literal(tok_at(t, pos))), pos + 1)
    } else if k == TokenType::Identifier {
        (Result::Ok(ExprModel::Identifier(tok_at(t, pos))), pos + 1)
    } else if k == TokenType::LeftParen {
        let (r, p) = parse_expression(t, pos + 1);
        match r {
            Result::Err(e) => (Result::Err(e), p),
            Result::Ok(inner) => {
                let p2 = step(p, pos + 1, t.len() as int);
                if kind_at(t, p2) == TokenType::RightParen {
                    (Result::Ok(ExprModel::Grouping(Box::new(inner))), p2 + 1)
                } else {
                    (
                        Result::Err(
                            ParseErrorModel::WrongTokenType(
                                line_at(t, p2),
                                lexeme_at(t, p2),
                                ")"@,
                            ),
                        ),
                        p2,
                    )
                }
            },
        }
    } else {
        (
            Result::Err(ParseErrorModel::WrongTokenType(line_at(t, pos), lexeme_at(t, pos), "("@)),
            pos,
        )
    }
}

/// `unary`: prefix `!` and `-`, right-recursive.
#[verifier::opaque]
pub open spec fn parse_unary(t: Seq<TokenModel>, pos: int) -> ExprStep
    decreases rem(t, pos), 1int,
{
    let k = kind_at(t, pos);
    if k == TokenType::Minus || k == TokenType::Bang {
        let op = tok_at(t, pos);
        let (r, p) = parse_unary(t, step(pos + 1, pos + 1, t.len() as int));
        match r {
            Result::Err(e) => (Result::Err(e), p),
            Result::Ok(inner) => (Result::Ok(ExprModel::Unary(op, Box::new(inner))), p),
        }
    } else {
        parse_primary(t, pos)
    }
}

/// The left-associative tail of `factor`: `* /`.
#[verifier::opaque]
pub open spec fn parse_factor_more(t: Seq<TokenModel>, pos: int, acc: ExprModel) -> ExprStep
    decreases rem(t, pos), 2int,
{
    let k = kind_at(t, pos);
    if k == TokenType::Star || k == TokenType::Slash {
        let op = tok_at(t, pos);
        let (r, p) = parse_unary(t, pos + 1);
        match r {
            Result::Err(e) => (Result::Err(e), p),
            Result::Ok(right) => {
                parse_factor_more(
                    t,
                    step(p, pos + 1, t.len() as int),
                    ExprModel::Binary(Box::new(acc), op, Box::new(right)),
                )
            },
        }
    } else {
        (Result::Ok(acc), pos)
    }
}

/// `factor`: `* /`, left-associative.
#[verifier::opaque]
pub open spec fn parse_factor(t: Seq<TokenModel>, pos: int) -> ExprStep
    decreases rem(t, pos), 3int,
{
    let (r, p) = parse_unary(t, pos);
    match r {
        Result::Err(e) => (Result::Err(e), p),
        Result::Ok(first) => parse_factor_more(t, step(p, pos, t.len() as int), first),
    }
}

/// The left-associative tail of `term`: `+ -`.
#[verifier::opaque]
pub open spec fn parse_term_more(t: Seq<TokenModel>, pos: int, acc: ExprModel) -> ExprStep
    decreases rem(t, pos), 4int,
{
    let k = kind_at(t, pos);
    if k == TokenType::Plus || k == TokenType::Minus {
        let op = tok_at(t, pos);
        let (r, p) = parse_factor(t, pos + 1);
        match r {
            Result::Err(e) => (Result::Err(e), p),
            Result::Ok(right) => {
                parse_term_more(
                    t,
                    step(p, pos + 1, t.len() as int),
                    ExprModel::Binary(Box::new(acc), op, Box::new(right)),
                )
            },
        }
    } else {
        (Result::Ok(acc), pos)
    }
}

/// `term`: `+ -`, left-associative.
#[verifier::opaque]
pub open spec fn parse_term(t: Seq<TokenModel>, pos: int) -> ExprStep
    decreases rem(t, pos), 5int,
{
    let (r, p) = parse_factor(t, pos);
    match r {
        Result::Err(e) => (Result::Err(e), p),
        Result::Ok(first) => parse_term_more(t, step(p, pos, t.len() as int), first),
    }
}

/// The left-associative tail of `comparison`: `> >= < <=`.
#[verifier::opaque]
pub open spec fn parse_comparison_more(t: Seq<TokenModel>, pos: int, acc: ExprModel) -> ExprStep
    decreases rem(t, pos), 6int,
{
    let k = kind_at(t, pos);
    if k == TokenType::Greater || k == TokenType::GreaterEqual || k == TokenType::Less || k
        == TokenType::LessEqual {
        let op = tok_at(t, pos);
        let (r, p) = parse_term(t, pos + 1);
        match r {
            Result::Err(e) => (Result::Err(e), p),
            Result::Ok(right) => {
                parse_comparison_more(
                    t,
                    step(p, pos + 1, t.len() as int),
                    ExprModel::Binary(Box::new(acc), op, Box::new(right)),
                )
            },
        }
    } else {
        (Result::Ok(acc), pos)
    }
}

/// `comparison`: `> >= < <=`, left-associative.
#[verifier::opaque]
pub open spec fn parse_comparison(t: Seq<TokenModel>, pos: int) -> ExprStep
    decreases rem(t, pos), 7int,
{
    let (r, p) = parse_term(t, pos);
    match r {
        Result::Err(e) => (Result::Err(e), p),
        Result::Ok(first) => parse_comparison_more(t, step(p, pos, t.len() as int), first),
    }
}

/// The left-associative tail of `equality`: `== !=`.
#[verifier::opaque]
pub open spec fn parse_equality_more(t: Seq<TokenModel>, pos: int, acc: ExprModel) -> ExprStep
    decreases rem(t, pos), 8int,
{
    let k = kind_at(t, pos);
    if k == TokenType::BangEqual || k == TokenType::EqualEqual {
        let op = tok_at(t, pos);
        let (r, p) = parse_comparison(t, pos + 1);
        match r {
            Result::Err(e) => (Result::Err(e), p),
            Result::Ok(right) => {
                parse_equality_more(
                    t,
                    step(p, pos + 1, t.len() as int),
                    ExprModel::Binary(Box::new(acc), op, Box::new(right)),
                )
            },
        }
    } else {
        (Result::Ok(acc), pos)
    }
}

/// `equality`: `== !=`, left-associative.
#[verifier::opaque]
pub open spec fn parse_equality(t: Seq<TokenModel>, pos: int) -> ExprStep
    decreases rem(t, pos), 9int,
{
    let (r, p) = parse_comparison(t, pos);
    match r {
        Result::Err(e) => (Result::Err(e), p),
        Result::Ok(first) => parse_equality_more(t, step(p, pos, t.len() as int), first),
    }
}

/// The left-associative tail of `and`.
#[verifier::opaque]
pub open spec fn parse_and_more(t: Seq<TokenModel>, pos: int, acc: ExprModel) -> ExprStep
    decreases rem(t, pos), 10int,
{
    if kind_at(t, pos) == TokenType::And {
        let op = tok_at(t, pos);
        let (r, p) = parse_equality(t, pos + 1);
        match r {
            Result::Err(e) => (Result::Err(e), p),
            Result::Ok(right) => {
                parse_and_more(
                    t,
                    step(p, pos + 1, t.len() as int),
                    ExprModel::Logical(Box::new(acc), op, Box::new(right)),
                )
            },
        }
    } else {
        (Result::Ok(acc), pos)
    }
}

/// `and`: short-circuit conjunction, left-associative.
#[verifier::opaque]
pub open spec fn parse_and(t: Seq<TokenModel>, pos: int) -> ExprStep
    decreases rem(t, pos), 11int,
{
    let (r, p) = parse_equality(t, pos);
    match r {
        Result::Err(e) => (Result::Err(e), p),
        Result::Ok(first) => parse_and_more(t, step(p, pos, t.len() as int), first),
    }
}

/// The left-associative tail of `or`.
#[verifier::opaque]
pub open spec fn parse_or_more(t: Seq<TokenModel>, pos: int, acc: ExprModel) -> ExprStep
    decreases rem(t, pos), 12int,
{
    if kind_at(t, pos) == TokenType::Or {
        let op = tok_at(t, pos);
        let (r, p) = parse_and(t, pos + 1);
        match r {
            Result::Err(e) => (Result::Err(e), p),
            Result::Ok(right) => {
                parse_or_more(
                    t,
                    step(p, pos + 1, t.len() as int),
                    ExprModel::Logical(Box::new(acc), op, Box::new(right)),
                )
            },
        }
    } else {
        (Result::Ok(acc), pos)
    }
}

/// `or`: short-circuit disjunction, left-associative.
#[verifier::opaque]
pub open spec fn parse_or(t: Seq<TokenModel>, pos: int) -> ExprStep
    decreases rem(t, pos), 13int,
{
    let (r, p) = parse_and(t, pos);
    match r {
        Result::Err(e) => (Result::Err(e), p),
        Result::Ok(first) => parse_or_more(t, step(p, pos, t.len() as int), first),
    }
}

/// `assignment`: right-associative, only onto a plain identifier; any other
/// target is an `InvalidAssignmentTarget` error carrying the rendered
/// offending expression.
#[verifier::opaque]
pub open spec fn parse_assignment(t: Seq<TokenModel>, pos: int) -> ExprStep
    decreases rem(t, pos), 15int,
{
    let (r, p) = parse_or(t, pos);
    match r {
        Result::Err(e) => (Result::Err(e), p),
        Result::Ok(target) => {
            let p2 = step(p, pos, t.len() as int);
            if kind_at(t, p2) == TokenType::Equal {
                let eq = tok_at(t, p2);
                let (vr, vp) = parse_assignment(t, step(p2 + 1, p2 + 1, t.len() as int));
                match vr {
                    Result::Err(e) => (Result::Err(e), vp),
                    Result::Ok(value) => {
                        match target {
                            ExprModel::Identifier(name) => {
                                (Result::Ok(ExprModel::Assign(name, Box::new(value))), vp)
                            },
                            _ => {
                                (
                                    Result::Err(
                                        ParseErrorModel::InvalidAssignmentTarget(
                                            eq.line,
                                            render_expr(target),
                                        ),
                                    ),
                                    vp,
                                )
                            },
                        }
                    },
                }
            } else {
                (Result::Ok(target), p)
            }
        },
    }
}

/// `expression`: the lowest-precedence entry point.
#[verifier::opaque]
pub open spec fn parse_expression(t: Seq<TokenModel>, pos: int) -> ExprStep
    decreases rem(t, pos), 16int,
{
    parse_assignment(t, pos)
}

/// One statement step: the statement or error, and the position after it.
pub type StmtStep = (Result<StmtModel, ParseErrorModel>, int);

/// One declaration step.
pub type DeclStep = (Result<DeclModel, ParseErrorModel>, int);

/// `statement`: `print`, a block, `if`, or a bare expression statement. A
/// trailing semicolon is consumed if present but never required.
pub open spec fn parse_statement(t: Seq<TokenModel>, pos: int) -> StmtStep
    decreases rem(t, pos), 17int,
{
    let k = kind_at(t, pos);
    if k == TokenType::Print {
        let (r, p) = parse_expression(t, pos + 1);
        match r {
            Result::Err(e) => (Result::Err(e), p),
            Result::Ok(e) => {
                let p2 = step(p, pos + 1, t.len() as int);
                if kind_at(t, p2) == TokenType::SemiColon {
                    (Result::Ok(StmtModel::Print(e)), p2 + 1)
                } else {
                    (Result::Ok(StmtModel::Print(e)), p2)
                }
            },
        }
    } else if k == TokenType::LeftBrace {
        let (r, p) = parse_block_decls(t, step(pos + 1, pos + 1, t.len() as int), Seq::empty());
        match r {
            Result::Err(e) => (Result::Err(e), p),
            Result::Ok(ds) => (Result::Ok(StmtModel::Block(ds)), p),
        }
    } else if k == TokenType::If {
        let tok = tok_at(t, pos);
        if kind_at(t, pos + 1) != TokenType::LeftParen {
            (
                Result::Err(
                    ParseErrorModel::WrongTokenType(
                        line_at(t, pos + 1),
                        lexeme_at(t, pos + 1),
                        "("@,
                    ),
                ),
                pos + 1,
            )
        } else {
            let (cr, cp) = parse_expression(t, pos + 2);
            match cr {
                Result::Err(e) => (Result::Err(e), cp),
                Result::Ok(cond) => {
                    let p2 = step(cp, pos + 2, t.len() as int);
                    if kind_at(t, p2) != TokenType::RightParen {
                        (
                            Result::Err(
                                ParseErrorModel::WrongTokenType(
                                    line_at(t, p2),
                                    lexeme_at(t, p2),
                                    ")"@,
                                ),
                            ),
                            p2,
                        )
                    } else {
                        let (tr, tp) = parse_statement(t, step(p2 + 1, p2 + 1, t.len() as int));
                        match tr {
                            Result::Err(e) => (Result::Err(e), tp),
                            Result::Ok(then) => {
                                let p3 = step(tp, p2 + 1, t.len() as int);
                                if kind_at(t, p3) == TokenType::Else {
                                    let (er, ep) = parse_statement(
                                        t,
                                        step(p3 + 1, p3 + 1, t.len() as int),
                                    );
                                    match er {
                                        Result::Err(e) => (Result::Err(e), ep),
                                        Result::Ok(other) => {
                                            (
                                                Result::Ok(
                                                    StmtModel::If(
                                                        tok,
                                                        cond,
                                                        Box::new(then),
                                                        Option::Some(Box::new(other)),
                                                    ),
                                                ),
                                                ep,
                                            )
                                        },
                                    }
                                } else {
                                    (
                                        Result::Ok(
                                            StmtModel::If(
                                                tok,
                                                cond,
                                                Box::new(then),
                                                Option::None,
                                            ),
                                        ),
                                        p3,
                                    )
                                }
                            },
                        }
                    }
                },
            }
        }
    } else {
        let (r, p) = parse_expression(t, pos);
        match r {
            Result::Err(e) => (Result::Err(e), p),
            Result::Ok(e) => {
                let p2 = step(p, pos, t.len() as int);
                if kind_at(t, p2) == TokenType::SemiColon {
                    (Result::Ok(StmtModel::Expression(e)), p2 + 1)
                } else {
                    (Result::Ok(StmtModel::Expression(e)), p2)
                }
            },
        }
    }
}

/// `declaration`: `var name (= initializer)? ;` or any statement.
pub open spec fn parse_declaration(t: Seq<TokenModel>, pos: int) -> DeclStep
    decreases rem(t, pos), 18int,
{
    if kind_at(t, pos) != TokenType::Var {
        let (r, p) = parse_statement(t, pos);
        let p2 = step(p, pos, t.len() as int);
        let p3 = if kind_at(t, p2) == TokenType::SemiColon {
            p2 + 1
        } else {
            p2
        };
        match r {
            Result::Err(e) => (Result::Err(e), p3),
            Result::Ok(s) => (Result::Ok(DeclModel::Statement(s)), p3),
        }
    } else {
        if kind_at(t, pos + 1) != TokenType::Identifier {
            (
                Result::Err(
                    ParseErrorModel::UnexpectedToken(
                        line_at(t, pos + 1),
                        "Found "@ + kind_text(kind_at(t, pos + 1)) + ", expected Identifier"@,
                    ),
                ),
                pos + 1,
            )
        } else {
            let name = tok_at(t, pos + 1);
            if kind_at(t, pos + 2) != TokenType::Equal {
                let p = if kind_at(t, pos + 2) == TokenType::SemiColon {
                    pos + 3
                } else {
                    pos + 2
                };
                (Result::Ok(DeclModel::Declaration(name, Option::None)), p)
            } else {
                let (r, p) = parse_expression(t, pos + 3);
                match r {
                    Result::Err(e) => (Result::Err(e), p),
                    Result::Ok(e) => {
                        let p2 = step(p, pos + 3, t.len() as int);
                        let p3 = if kind_at(t, p2) == TokenType::SemiColon {
                            p2 + 1
                        } else {
                            p2
                        };
                        (Result::Ok(DeclModel::Declaration(name, Option::Some(e))), p3)
                    },
                }
            }
        }
    }
}

/// The declarations of a block, up to the closing brace. Reaching the end of
/// input with the block still open is an `UnexpectedEof` error.
pub open spec fn parse_block_decls(t: Seq<TokenModel>, pos: int, acc: Seq<DeclModel>) -> (
    Result<Seq<DeclModel>, ParseErrorModel>,
    int,
)
    decreases rem(t, pos), 19int,
{
    if kind_at(t, pos) == TokenType::RightBrace {
        (Result::Ok(acc), pos + 1)
    } else if kind_at(t, pos) == TokenType::Eof {
        (Result::Err(ParseErrorModel::UnexpectedEof(line_at(t, pos))), pos)
    } else {
        let (r, p) = parse_declaration(t, pos);
        match r {
            Result::Err(e) => (Result::Err(e), p),
            Result::Ok(d) => {
                parse_block_decls(t, step(p, pos + 1, t.len() as int), acc.push(d))
            },
        }
    }
}

/// The token kinds that may begin a new statement; error recovery stops at
/// them.
pub open spec fn starts_statement(k: TokenType) -> bool {
    k == TokenType::Class || k == TokenType::Fun || k == TokenType::Fn || k == TokenType::Var || k
        == TokenType::For || k == TokenType::If || k == TokenType::While || k == TokenType::Print
        || k == TokenType::Return
}

/// Error recovery: discard tokens until the end of input, a token right
/// after a semicolon, or a token that begins a new statement.
pub open spec fn synchronize_from(t: Seq<TokenModel>, pos: int) -> int
    decreases rem(t, pos),
{
    if kind_at(t, pos) == TokenType::Eof {
        pos
    } else if kind_at(t, pos - 1) == TokenType::SemiColon {
        pos
    } else if starts_statement(kind_at(t, pos)) {
        pos
    } else {
        synchronize_from(t, pos + 1)
    }
}

/// Error recovery from a failed declaration at `pos`: skip one token, then
/// scan for a statement boundary.
pub open spec fn synchronize(t: Seq<TokenModel>, pos: int) -> int {
    if kind_at(t, pos) == TokenType::Eof {
        pos
    } else {
        synchronize_from(t, pos + 1)
    }
}

/// The whole parse: one result per top-level declaration attempt, until the
/// end of input, recovering after each failure.
pub open spec fn parse_program(t: Seq<TokenModel>, pos: int) -> Seq<
    Result<DeclModel, ParseErrorModel>,
>
    decreases rem(t, pos),
{
    if kind_at(t, pos) == TokenType::Eof {
        Seq::empty()
    } else {
        let (r, p) = parse_declaration(t, pos);
        let p2 = match r {
            Result::Err(_) => synchronize(t, step(p, pos, t.len() as int)),
            Result::Ok(_) => p,
        };
        seq![r] + parse_program(t, step(p2, pos + 1, t.len() as int))
    }
}


/// The models of a sequence of tokens.
pub open spec fn toks_view(v: Seq<Token>) -> Seq<TokenModel> {
    v.map_values(|x: Token| x@)
}

/// The model of a produced expression result.
pub open spec fn expr_result_view(r: Result<Expr, ParseError>) -> Result<
    ExprModel,
    ParseErrorModel,
> {
    match r {
        Result::Ok(e) => Result::Ok(e@),
        Result::Err(x) => Result::Err(x@),
    }
}

/// The model of a produced statement result.
pub open spec fn stmt_result_view(r: Result<Stmt, ParseError>) -> Result<
    StmtModel,
    ParseErrorModel,
> {
    match r {
        Result::Ok(s) => Result::Ok(s@),
        Result::Err(x) => Result::Err(x@),
    }
}

/// The model of a produced declaration result.
pub open spec fn decl_result_view(r: Result<Decl, ParseError>) -> Result<
    DeclModel,
    ParseErrorModel,
> {
    match r {
        Result::Ok(d) => Result::Ok(d@),
        Result::Err(x) => Result::Err(x@),
    }
}

/// The models of a sequence of produced declaration results.
pub open spec fn decl_results_view(v: Seq<Result<Decl, ParseError>>) -> Seq<
    Result<DeclModel, ParseErrorModel>,
> {
    v.map_values(|r: Result<Decl, ParseError>| decl_result_view(r))
}

fn step_pos(p: usize, lo: usize, n: usize) -> (r: usize)
    ensures
        r as int == step(p as int, lo as int, n as int),
{
    if p < lo {
        lo
    } else if p > n {
        n
    } else {
        p
    }
}

fn kind_of(toks: &Vec<Token>, pos: usize) -> (k: TokenType)
    ensures
        k == kind_at(toks_view(toks@), pos as int),
        k != TokenType::Eof ==> pos < toks@.len(),
{
    proof {
        assert(toks_view(toks@).len() == toks@.len());
    }
    if pos < toks.len() {
        toks[pos].token_type
    } else {
        TokenType::Eof
    }
}

fn line_of(toks: &Vec<Token>, pos: usize) -> (l: i32)
    ensures
        l as int == line_at(toks_view(toks@), pos as int),
{
    if pos < toks.len() {
        toks[pos].line
    } else if toks.len() > 0 {
        toks[toks.len() - 1].line
    } else {
        1
    }
}

fn lexeme_string(toks: &Vec<Token>, pos: usize) -> (s: String)
    ensures
        s@ == lexeme_at(toks_view(toks@), pos as int),
{
    if pos < toks.len() {
        toks[pos].lexeme.clone()
    } else {
        String::new()
    }
}

fn token_clone(toks: &Vec<Token>, pos: usize) -> (t: Token)
    ensures
        t@ == tok_at(toks_view(toks@), pos as int),
{
    if pos < toks.len() {
        toks[pos].duplicate()
    } else {
        let t = Token {
            token_type: TokenType::Eof,
            lexeme: String::new(),
            literal: Option::None,
            line: line_of(toks, pos),
        };
        assert(t@ =~= tok_at(toks_view(toks@), pos as int));
        t
    }
}

fn kind_text_str(k: TokenType) -> (r: &'static str)
    ensures
        r@ == kind_text(k),
{
    match k {
        TokenType::LeftParen => "LeftParen",
        TokenType::RightParen => "RightParen",
        TokenType::LeftBrace => "LeftBrace",
        TokenType::RightBrace => "RightBrace",
        TokenType::Comma => "Comma",
        TokenType::Dot => "Dot",
        TokenType::Minus => "Minus",
        TokenType::Plus => "Plus",
        TokenType::SemiColon => "SemiColon",
        TokenType::Slash => "Slash",
        TokenType::Star => "Star",
        TokenType::Bang => "Bang",
        TokenType::BangEqual => "BangEqual",
        TokenType::Equal => "Equal",
        TokenType::EqualEqual => "EqualEqual",
        TokenType::Greater => "Greater",
        TokenType::GreaterEqual => "GreaterEqual",
        TokenType::Less => "Less",
        TokenType::LessEqual => "LessEqual",
        TokenType::Identifier => "Identifier",
        TokenType::String => "String",
        TokenType::Integer => "Integer",
        TokenType::Float => "Float",
        TokenType::And => "And",
        TokenType::Class => "Class",
        TokenType::Else => "Else",
        TokenType::False => "False",
        TokenType::Fun => "Fun",
        TokenType::Fn => "Fn",
        TokenType::For => "For",
        TokenType::If => "If",
        TokenType::Nil => "Nil",
        TokenType::Or => "Or",
        TokenType::Print => "Print",
        TokenType::Return => "Return",
        TokenType::Super => "Super",
        TokenType::This => "This",
        TokenType::True => "True",
        TokenType::Var => "Var",
        TokenType::While => "While",
        TokenType::SingleLineComment => "SingleLineComment",
        TokenType::Whitespace => "Whitespace",
        TokenType::Eof => "Eof",
    }
}


proof fn lemma_parse_term_unfold(t: Seq<TokenModel>, pos: int)
    ensures
        parse_factor(t, pos).0 is Err ==> parse_term(t, pos) == (
            Result::<ExprModel, ParseErrorModel>::Err(parse_factor(t, pos).0->Err_0),
            parse_factor(t, pos).1,
        ),
        parse_factor(t, pos).0 is Ok ==> parse_term(t, pos) == parse_term_more(
            t,
            step(parse_factor(t, pos).1, pos, t.len() as int),
            parse_factor(t, pos).0->Ok_0,
        ),
{
    reveal(parse_term);
    reveal(parse_factor);
    reveal(parse_term_more);
}

proof fn lemma_parse_comparison_unfold(t: Seq<TokenModel>, pos: int)
    ensures
        parse_term(t, pos).0 is Err ==> parse_comparison(t, pos) == (
            Result::<ExprModel, ParseErrorModel>::Err(parse_term(t, pos).0->Err_0),
            parse_term(t, pos).1,
        ),
        parse_term(t, pos).0 is Ok ==> parse_comparison(t, pos) == parse_comparison_more(
            t,
            step(parse_term(t, pos).1, pos, t.len() as int),
            parse_term(t, pos).0->Ok_0,
        ),
{
    reveal(parse_comparison);
    reveal(parse_term);
    reveal(parse_comparison_more);
}

proof fn lemma_parse_equality_unfold(t: Seq<TokenModel>, pos: int)
    ensures
        parse_comparison(t, pos).0 is Err ==> parse_equality(t, pos) == (
            Result::<ExprModel, ParseErrorModel>::Err(parse_comparison(t, pos).0->Err_0),
            parse_comparison(t, pos).1,
        ),
        parse_comparison(t, pos).0 is Ok ==> parse_equality(t, pos) == parse_equality_more(
            t,
            step(parse_comparison(t, pos).1, pos, t.len() as int),
            parse_comparison(t, pos).0->Ok_0,
        ),
{
    reveal(parse_equality);
    reveal(parse_comparison);
    reveal(parse_equality_more);
}

proof fn lemma_parse_and_unfold(t: Seq<TokenModel>, pos: int)
    ensures
        parse_equality(t, pos).0 is Err ==> parse_and(t, pos) == (
            Result::<ExprModel, ParseErrorModel>::Err(parse_equality(t, pos).0->Err_0),
            parse_equality(t, pos).1,
        ),
        parse_equality(t, pos).0 is Ok ==> parse_and(t, pos) == parse_and_more(
            t,
            step(parse_equality(t, pos).1, pos, t.len() as int),
            parse_equality(t, pos).0->Ok_0,
        ),
{
    reveal(parse_and);
    reveal(parse_equality);
    reveal(parse_and_more);
}

proof fn lemma_parse_or_unfold(t: Seq<TokenModel>, pos: int)
    ensures
        parse_and(t, pos).0 is Err ==> parse_or(t, pos) == (
            Result::<ExprModel, ParseErrorModel>::Err(parse_and(t, pos).0->Err_0),
            parse_and(t, pos).1,
        ),
        parse_and(t, pos).0 is Ok ==> parse_or(t, pos) == parse_or_more(
            t,
            step(parse_and(t, pos).1, pos, t.len() as int),
            parse_and(t, pos).0->Ok_0,
        ),
{
    reveal(parse_or);
    reveal(parse_and);
    reveal(parse_or_more);
}

proof fn lemma_parse_assignment_unfold(t: Seq<TokenModel>, pos: int)
    ensures
        parse_or(t, pos).0 is Err ==> parse_assignment(t, pos) == (
            Result::<ExprModel, ParseErrorModel>::Err(parse_or(t, pos).0->Err_0),
            parse_or(t, pos).1,
        ),
        parse_or(t, pos).0 is Ok ==> ({
            let target = parse_or(t, pos).0->Ok_0;
            let p = parse_or(t, pos).1;
            let p2 = step(p, pos, t.len() as int);
            if kind_at(t, p2) == TokenType::Equal {
                let vr = parse_assignment(t, step(p2 + 1, p2 + 1, t.len() as int)).0;
                let vp = parse_assignment(t, step(p2 + 1, p2 + 1, t.len() as int)).1;
                if vr is Err {
                    parse_assignment(t, pos) == (
                        Result::<ExprModel, ParseErrorModel>::Err(vr->Err_0),
                        vp,
                    )
                } else if target is Identifier {
                    parse_assignment(t, pos) == (
                        Result::<ExprModel, ParseErrorModel>::Ok(
                            ExprModel::Assign(target->Identifier_0, Box::new(vr->Ok_0)),
                        ),
                        vp,
                    )
                } else {
                    parse_assignment(t, pos) == (
                        Result::<ExprModel, ParseErrorModel>::Err(
                            ParseErrorModel::InvalidAssignmentTarget(
                                tok_at(t, p2).line,
                                render_expr(target),
                            ),
                        ),
                        vp,
                    )
                }
            } else {
                parse_assignment(t, pos) == (
                    Result::<ExprModel, ParseErrorModel>::Ok(target),
                    p,
                )
            }
        }),
{
    reveal(parse_assignment);
    reveal(parse_or);
}

proof fn lemma_parse_primary_unfold(t: Seq<TokenModel>, pos: int)
    ensures
        ({
            let k = kind_at(t, pos);
            if k == TokenType::Eof {
                parse_primary(t, pos) == (
                    Result::<ExprModel, ParseErrorModel>::Err(
                        ParseErrorModel::UnexpectedEof(line_at(t, pos)),
                    ),
                    pos,
                )
            } else if k == TokenType::True || k == TokenType::False || k == TokenType::Nil || k
                == TokenType::Integer || k == TokenType::Float || k == TokenType::String {
                parse_primary(t, pos) == (
                    Result::<ExprModel, ParseErrorModel>::Ok(ExprModel::Literal(tok_at(t, pos))),
                    pos + 1,
                )
            } else if k == TokenType::Identifier {
                parse_primary(t, pos) == (
                    Result::<ExprModel, ParseErrorModel>::Ok(ExprModel::Identifier(tok_at(t, pos))),
                    pos + 1,
                )
            } else if k == TokenType::LeftParen {
                let r = parse_expression(t, pos + 1).0;
                let p = parse_expression(t, pos + 1).1;
                let p2 = step(p, pos + 1, t.len() as int);
                if r is Err {
                    parse_primary(t, pos) == (
                        Result::<ExprModel, ParseErrorModel>::Err(r->Err_0),
                        p,
                    )
                } else if kind_at(t, p2) == TokenType::RightParen {
                    parse_primary(t, pos) == (
                        Result::<ExprModel, ParseErrorModel>::Ok(
                            ExprModel::Grouping(Box::new(r->Ok_0)),
                        ),
                        p2 + 1,
                    )
                } else {
                    parse_primary(t, pos) == (
                        Result::<ExprModel, ParseErrorModel>::Err(
                            ParseErrorModel::WrongTokenType(
                                line_at(t, p2),
                                lexeme_at(t, p2),
                                ")"@,
                            ),
                        ),
                        p2,
                    )
                }
            } else {
                parse_primary(t, pos) == (
                    Result::<ExprModel, ParseErrorModel>::Err(
                        ParseErrorModel::WrongTokenType(line_at(t, pos), lexeme_at(t, pos), "("@),
                    ),
                    pos,
                )
            }
        }),
{
    reveal(parse_primary);
    reveal(parse_expression);
}

#[verifier::rlimit(100)]
fn p_primary(toks: &Vec<Token>, pos: usize) -> (r: (Result<Expr, ParseError>, usize))
    requires
        pos <= toks@.len(),
    ensures
        expr_result_view(r.0) == parse_primary(toks_view(toks@), pos as int).0,
        r.1 as int == parse_primary(toks_view(toks@), pos as int).1,
        r.1 <= toks@.len(),
    decreases toks@.len() - pos, 0int,
{
    let n_toks = toks.len();
    let ghost tv = toks_view(toks@);
    let k = kind_of(toks, pos);
    if k == TokenType::Eof {
        let e = ParseError::UnexpectedEof(line_of(toks, pos));
        proof {
                    lemma_parse_primary_unfold(tv, pos as int);
            assert(parse_primary(tv, pos as int).0 == Result::<ExprModel, ParseErrorModel>::Err(
                e@,
            ));
            assert(parse_primary(tv, pos as int).1 == pos as int);
        }
        (Result::Err(e), pos)
    } else if k == TokenType::True || k == TokenType::False || k == TokenType::Nil || k
        == TokenType::Integer || k == TokenType::Float || k == TokenType::String {
        let t = token_clone(toks, pos);
        proof {
                    lemma_parse_primary_unfold(tv, pos as int);
            assert(parse_primary(tv, pos as int).0 == Result::<ExprModel, ParseErrorModel>::Ok(
                ExprModel::Literal(t@),
            ));
            assert(parse_primary(tv, pos as int).1 == pos + 1);
        }
        (Result::Ok(Expr::Literal(t)), pos + 1)
    } else if k == TokenType::Identifier {
        let t = token_clone(toks, pos);
        proof {
                    lemma_parse_primary_unfold(tv, pos as int);
            assert(parse_primary(tv, pos as int).0 == Result::<ExprModel, ParseErrorModel>::Ok(
                ExprModel::Identifier(t@),
            ));
            assert(parse_primary(tv, pos as int).1 == pos + 1);
        }
        (Result::Ok(Expr::Identifier(t)), pos + 1)
    } else if k == TokenType::LeftParen {
        let (r0, p) = p_expression(toks, pos + 1);
        match r0 {
            Result::Err(e) => {
                proof {
                    lemma_parse_primary_unfold(tv, pos as int);
                    assert(parse_primary(tv, pos as int).0 == Result::<
                        ExprModel,
                        ParseErrorModel,
                    >::Err(e@));
                    assert(parse_primary(tv, pos as int).1 == p as int);
                }
                (Result::Err(e), p)
            },
            Result::Ok(inner) => {
                let ghost im = inner@;
                let p2 = step_pos(p, pos + 1, toks.len());
                if kind_of(toks, p2) == TokenType::RightParen {
                    let g = Expr::Grouping(Box::new(inner));
                    proof {
                    lemma_parse_primary_unfold(tv, pos as int);
                        assert(g@ =~= ExprModel::Grouping(Box::new(im)));
                        assert(parse_primary(tv, pos as int).0 == Result::<
                            ExprModel,
                            ParseErrorModel,
                        >::Ok(g@));
                        assert(parse_primary(tv, pos as int).1 == p2 + 1);
                    }
                    (Result::Ok(g), p2 + 1)
                } else {
                    let expected: String = ")".to_owned();
                    let e = ParseError::WrongTokenType(
                        line_of(toks, p2),
                        lexeme_string(toks, p2),
                        expected,
                    );
                    proof {
                    lemma_parse_primary_unfold(tv, pos as int);
                        assert(parse_primary(tv, pos as int).0 == Result::<
                            ExprModel,
                            ParseErrorModel,
                        >::Err(e@));
                        assert(parse_primary(tv, pos as int).1 == p2 as int);
                    }
                    (Result::Err(e), p2)
                }
            },
        }
    } else {
        let expected: String = "(".to_owned();
        let e = ParseError::WrongTokenType(line_of(toks, pos), lexeme_string(toks, pos), expected);
        proof {
                    lemma_parse_primary_unfold(tv, pos as int);
            assert(parse_primary(tv, pos as int).0 == Result::<ExprModel, ParseErrorModel>::Err(
                e@,
            ));
            assert(parse_primary(tv, pos as int).1 == pos as int);
        }
        (Result::Err(e), pos)
    }
}

#[verifier::rlimit(100)]
fn p_unary(toks: &Vec<Token>, pos: usize) -> (r: (Result<Expr, ParseError>, usize))
    requires
        pos <= toks@.len(),
    ensures
        expr_result_view(r.0) == parse_unary(toks_view(toks@), pos as int).0,
        r.1 as int == parse_unary(toks_view(toks@), pos as int).1,
        r.1 <= toks@.len(),
    decreases toks@.len() - pos, 1int,
{
    proof {
        reveal(parse_unary);
        reveal(parse_primary);
    }
    let n_toks = toks.len();
    let ghost tv = toks_view(toks@);
    let k = kind_of(toks, pos);
    if k == TokenType::Minus || k == TokenType::Bang {
        let op = token_clone(toks, pos);
        let ghost opm = op@;
        let (r0, p) = p_unary(toks, step_pos(pos + 1, pos + 1, toks.len()));
        match r0 {
            Result::Err(e) => {
                proof {
                    assert(parse_unary(tv, pos as int).0 == Result::<
                        ExprModel,
                        ParseErrorModel,
                    >::Err(e@));
                    assert(parse_unary(tv, pos as int).1 == p as int);
                }
                (Result::Err(e), p)
            },
            Result::Ok(inner) => {
                let ghost im = inner@;
                let u = Expr::Unary(op, Box::new(inner));
                proof {
                    assert(u@ =~= ExprModel::Unary(opm, Box::new(im)));
                    assert(parse_unary(tv, pos as int).0 == Result::<
                        ExprModel,
                        ParseErrorModel,
                    >::Ok(u@));
                    assert(parse_unary(tv, pos as int).1 == p as int);
                }
                (Result::Ok(u), p)
            },
        }
    } else {
        let r = p_primary(toks, pos);
        proof {
            assert(parse_unary(tv, pos as int) == parse_primary(tv, pos as int));
        }
        r
    }
}

#[verifier::rlimit(100)]
fn p_factor_more(toks: &Vec<Token>, pos: usize, acc: Expr) -> (r: (Result<Expr, ParseError>, usize))
    requires
        pos <= toks@.len(),
    ensures
        expr_result_view(r.0) == parse_factor_more(toks_view(toks@), pos as int, acc@).0,
        r.1 as int == parse_factor_more(toks_view(toks@), pos as int, acc@).1,
        r.1 <= toks@.len(),
    decreases toks@.len() - pos, 2int,
{
    proof {
        reveal(parse_factor_more);
        reveal(parse_unary);
    }
    let n_toks = toks.len();
    let ghost tv = toks_view(toks@);
    let ghost accm = acc@;
    let k = kind_of(toks, pos);
    if k == TokenType::Star || k == TokenType::Slash {
        let op = token_clone(toks, pos);
        let ghost opm = op@;
        let (r0, p) = p_unary(toks, pos + 1);
        match r0 {
            Result::Err(e) => {
                proof {
                    assert(parse_factor_more(tv, pos as int, accm).0 == Result::<
                        ExprModel,
                        ParseErrorModel,
                    >::Err(e@));
                    assert(parse_factor_more(tv, pos as int, accm).1 == p as int);
                }
                (Result::Err(e), p)
            },
            Result::Ok(right) => {
                let ghost rm = right@;
                let p2 = step_pos(p, pos + 1, toks.len());
                let b = Expr::Binary(Box::new(acc), op, Box::new(right));
                proof {
                    assert(b@ =~= ExprModel::Binary(Box::new(accm), opm, Box::new(rm)));
                    assert(parse_factor_more(tv, pos as int, accm) == parse_factor_more(
                        tv,
                        p2 as int,
                        b@,
                    ));
                }
                p_factor_more(toks, p2, b)
            },
        }
    } else {
        proof {
            assert(parse_factor_more(tv, pos as int, accm).0 == Result::<
                ExprModel,
                ParseErrorModel,
            >::Ok(accm));
            assert(parse_factor_more(tv, pos as int, accm).1 == pos as int);
        }
        (Result::Ok(acc), pos)
    }
}

#[verifier::rlimit(100)]
fn p_factor(toks: &Vec<Token>, pos: usize) -> (r: (Result<Expr, ParseError>, usize))
    requires
        pos <= toks@.len(),
    ensures
        expr_result_view(r.0) == parse_factor(toks_view(toks@), pos as int).0,
        r.1 as int == parse_factor(toks_view(toks@), pos as int).1,
        r.1 <= toks@.len(),
    decreases toks@.len() - pos, 3int,
{
    proof {
        reveal(parse_factor);
        reveal(parse_unary);
        reveal(parse_factor_more);
    }
    let n_toks = toks.len();
    let ghost tv = toks_view(toks@);
    let (r0, p) = p_unary(toks, pos);
    match r0 {
        Result::Err(e) => {
            proof {
                assert(parse_factor(tv, pos as int).0 == Result::<ExprModel, ParseErrorModel>::Err(
                    e@,
                ));
                assert(parse_factor(tv, pos as int).1 == p as int);
            }
            (Result::Err(e), p)
        },
        Result::Ok(first) => {
            let ghost fm = first@;
            let p2 = step_pos(p, pos, toks.len());
            proof {
                assert(parse_factor(tv, pos as int) == parse_factor_more(tv, p2 as int, fm));
            }
            p_factor_more(toks, p2, first)
        },
    }
}

#[verifier::rlimit(100)]
fn p_term_more(toks: &Vec<Token>, pos: usize, acc: Expr) -> (r: (Result<Expr, ParseError>, usize))
    requires
        pos <= toks@.len(),
    ensures
        expr_result_view(r.0) == parse_term_more(toks_view(toks@), pos as int, acc@).0,
        r.1 as int == parse_term_more(toks_view(toks@), pos as int, acc@).1,
        r.1 <= toks@.len(),
    decreases toks@.len() - pos, 4int,
{
    proof {
        reveal(parse_term_more);
        reveal(parse_factor);
    }
    let n_toks = toks.len();
    let ghost tv = toks_view(toks@);
    let ghost accm = acc@;
    let k = kind_of(toks, pos);
    if k == TokenType::Plus || k == TokenType::Minus {
        let op = token_clone(toks, pos);
        let ghost opm = op@;
        let (r0, p) = p_factor(toks, pos + 1);
        match r0 {
            Result::Err(e) => {
                proof {
                    assert(parse_term_more(tv, pos as int, accm).0 == Result::<
                        ExprModel,
                        ParseErrorModel,
                    >::Err(e@));
                    assert(parse_term_more(tv, pos as int, accm).1 == p as int);
                }
                (Result::Err(e), p)
            },
            Result::Ok(right) => {
                let ghost rm = right@;
                let p2 = step_pos(p, pos + 1, toks.len());
                let b = Expr::Binary(Box::new(acc), op, Box::new(right));
                proof {
                    assert(b@ =~= ExprModel::Binary(Box::new(accm), opm, Box::new(rm)));
                    assert(parse_term_more(tv, pos as int, accm) == parse_term_more(
                        tv,
                        p2 as int,
                        b@,
                    ));
                }
                p_term_more(toks, p2, b)
            },
        }
    } else {
        proof {
            assert(parse_term_more(tv, pos as int, accm).0 == Result::<
                ExprModel,
                ParseErrorModel,
            >::Ok(accm));
            assert(parse_term_more(tv, pos as int, accm).1 == pos as int);
        }
        (Result::Ok(acc), pos)
    }
}

#[verifier::rlimit(100)]
fn p_term(toks: &Vec<Token>, pos: usize) -> (r: (Result<Expr, ParseError>, usize))
    requires
        pos <= toks@.len(),
    ensures
        expr_result_view(r.0) == parse_term(toks_view(toks@), pos as int).0,
        r.1 as int == parse_term(toks_view(toks@), pos as int).1,
        r.1 <= toks@.len(),
    decreases toks@.len() - pos, 5int,
{
    let n_toks = toks.len();
    let ghost tv = toks_view(toks@);
    let (r0, p) = p_factor(toks, pos);
    match r0 {
        Result::Err(e) => {
            proof {
                    lemma_parse_term_unfold(tv, pos as int);
                assert(parse_term(tv, pos as int).0 == Result::<ExprModel, ParseErrorModel>::Err(
                    e@,
                ));
                assert(parse_term(tv, pos as int).1 == p as int);
            }
            (Result::Err(e), p)
        },
        Result::Ok(first) => {
            let ghost fm = first@;
            let p2 = step_pos(p, pos, toks.len());
            proof {
                    lemma_parse_term_unfold(tv, pos as int);
                assert(parse_term(tv, pos as int) == parse_term_more(tv, p2 as int, fm));
            }
            p_term_more(toks, p2, first)
        },
    }
}

#[verifier::rlimit(100)]
fn p_comparison_more(toks: &Vec<Token>, pos: usize, acc: Expr) -> (r: (Result<Expr, ParseError>, usize))
    requires
        pos <= toks@.len(),
    ensures
        expr_result_view(r.0) == parse_comparison_more(toks_view(toks@), pos as int, acc@).0,
        r.1 as int == parse_comparison_more(toks_view(toks@), pos as int, acc@).1,
        r.1 <= toks@.len(),
    decreases toks@.len() - pos, 6int,
{
    proof {
        reveal(parse_comparison_more);
        reveal(parse_term);
    }
    let n_toks = toks.len();
    let ghost tv = toks_view(toks@);
    let ghost accm = acc@;
    let k = kind_of(toks, pos);
    if k == TokenType::Greater || k == TokenType::GreaterEqual || k == TokenType::Less || k == TokenType::LessEqual {
        let op = token_clone(toks, pos);
        let ghost opm = op@;
        let (r0, p) = p_term(toks, pos + 1);
        match r0 {
            Result::Err(e) => {
                proof {
                    assert(parse_comparison_more(tv, pos as int, accm).0 == Result::<
                        ExprModel,
                        ParseErrorModel,
                    >::Err(e@));
                    assert(parse_comparison_more(tv, pos as int, accm).1 == p as int);
                }
                (Result::Err(e), p)
            },
            Result::Ok(right) => {
                let ghost rm = right@;
                let p2 = step_pos(p, pos + 1, toks.len());
                let b = Expr::Binary(Box::new(acc), op, Box::new(right));
                proof {
                    assert(b@ =~= ExprModel::Binary(Box::new(accm), opm, Box::new(rm)));
                    assert(parse_comparison_more(tv, pos as int, accm) == parse_comparison_more(
                        tv,
                        p2 as int,
                        b@,
                    ));
                }
                p_comparison_more(toks, p2, b)
            },
        }
    } else {
        proof {
            assert(parse_comparison_more(tv, pos as int, accm).0 == Result::<
                ExprModel,
                ParseErrorModel,
            >::Ok(accm));
            assert(parse_comparison_more(tv, pos as int, accm).1 == pos as int);
        }
        (Result::Ok(acc), pos)
    }
}

#[verifier::rlimit(100)]
fn p_comparison(toks: &Vec<Token>, pos: usize) -> (r: (Result<Expr, ParseError>, usize))
    requires
        pos <= toks@.len(),
    ensures
        expr_result_view(r.0) == parse_comparison(toks_view(toks@), pos as int).0,
        r.1 as int == parse_comparison(toks_view(toks@), pos as int).1,
        r.1 <= toks@.len(),
    decreases toks@.len() - pos, 7int,
{
    let n_toks = toks.len();
    let ghost tv = toks_view(toks@);
    let (r0, p) = p_term(toks, pos);
    match r0 {
        Result::Err(e) => {
            proof {
                    lemma_parse_comparison_unfold(tv, pos as int);
                assert(parse_comparison(tv, pos as int).0 == Result::<ExprModel, ParseErrorModel>::Err(
                    e@,
                ));
                assert(parse_comparison(tv, pos as int).1 == p as int);
            }
            (Result::Err(e), p)
        },
        Result::Ok(first) => {
            let ghost fm = first@;
            let p2 = step_pos(p, pos, toks.len());
            proof {
                    lemma_parse_comparison_unfold(tv, pos as int);
                assert(parse_comparison(tv, pos as int) == parse_comparison_more(tv, p2 as int, fm));
            }
            p_comparison_more(toks, p2, first)
        },
    }
}

#[verifier::rlimit(100)]
fn p_equality_more(toks: &Vec<Token>, pos: usize, acc: Expr) -> (r: (Result<Expr, ParseError>, usize))
    requires
        pos <= toks@.len(),
    ensures
        expr_result_view(r.0) == parse_equality_more(toks_view(toks@), pos as int, acc@).0,
        r.1 as int == parse_equality_more(toks_view(toks@), pos as int, acc@).1,
        r.1 <= toks@.len(),
    decreases toks@.len() - pos, 8int,
{
    proof {
        reveal(parse_equality_more);
        reveal(parse_comparison);
    }
    let n_toks = toks.len();
    let ghost tv = toks_view(toks@);
    let ghost accm = acc@;
    let k = kind_of(toks, pos);
    if k == TokenType::BangEqual || k == TokenType::EqualEqual {
        let op = token_clone(toks, pos);
        let ghost opm = op@;
        let (r0, p) = p_comparison(toks, pos + 1);
        match r0 {
            Result::Err(e) => {
                proof {
                    assert(parse_equality_more(tv, pos as int, accm).0 == Result::<
                        ExprModel,
                        ParseErrorModel,
                    >::Err(e@));
                    assert(parse_equality_more(tv, pos as int, accm).1 == p as int);
                }
                (Result::Err(e), p)
            },
            Result::Ok(right) => {
                let ghost rm = right@;
                let p2 = step_pos(p, pos + 1, toks.len());
                let b = Expr::Binary(Box::new(acc), op, Box::new(right));
                proof {
                    assert(b@ =~= ExprModel::Binary(Box::new(accm), opm, Box::new(rm)));
                    assert(parse_equality_more(tv, pos as int, accm) == parse_equality_more(
                        tv,
                        p2 as int,
                        b@,
                    ));
                }
                p_equality_more(toks, p2, b)
            },
        }
    } else {
        proof {
            assert(parse_equality_more(tv, pos as int, accm).0 == Result::<
                ExprModel,
                ParseErrorModel,
            >::Ok(accm));
            assert(parse_equality_more(tv, pos as int, accm).1 == pos as int);
        }
        (Result::Ok(acc), pos)
    }
}

#[verifier::rlimit(100)]
fn p_equality(toks: &Vec<Token>, pos: usize) -> (r: (Result<Expr, ParseError>, usize))
    requires
        pos <= toks@.len(),
    ensures
        expr_result_view(r.0) == parse_equality(toks_view(toks@), pos as int).0,
        r.1 as int == parse_equality(toks_view(toks@), pos as int).1,
        r.1 <= toks@.len(),
    decreases toks@.len() - pos, 9int,
{
    let n_toks = toks.len();
    let ghost tv = toks_view(toks@);
    let (r0, p) = p_comparison(toks, pos);
    match r0 {
        Result::Err(e) => {
            proof {
                    lemma_parse_equality_unfold(tv, pos as int);
                assert(parse_equality(tv, pos as int).0 == Result::<ExprModel, ParseErrorModel>::Err(
                    e@,
                ));
                assert(parse_equality(tv, pos as int).1 == p as int);
            }
            (Result::Err(e), p)
        },
        Result::Ok(first) => {
            let ghost fm = first@;
            let p2 = step_pos(p, pos, toks.len());
            proof {
                    lemma_parse_equality_unfold(tv, pos as int);
                assert(parse_equality(tv, pos as int) == parse_equality_more(tv, p2 as int, fm));
            }
            p_equality_more(toks, p2, first)
        },
    }
}

#[verifier::rlimit(100)]
fn p_and_more(toks: &Vec<Token>, pos: usize, acc: Expr) -> (r: (Result<Expr, ParseError>, usize))
    requires
        pos <= toks@.len(),
    ensures
        expr_result_view(r.0) == parse_and_more(toks_view(toks@), pos as int, acc@).0,
        r.1 as int == parse_and_more(toks_view(toks@), pos as int, acc@).1,
        r.1 <= toks@.len(),
    decreases toks@.len() - pos, 10int,
{
    proof {
        reveal(parse_and_more);
        reveal(parse_equality);
    }
    let n_toks = toks.len();
    let ghost tv = toks_view(toks@);
    let ghost accm = acc@;
    let k = kind_of(toks, pos);
    if k == TokenType::And {
        let op = token_clone(toks, pos);
        let ghost opm = op@;
        let (r0, p) = p_equality(toks, pos + 1);
        match r0 {
            Result::Err(e) => {
                proof {
                    assert(parse_and_more(tv, pos as int, accm).0 == Result::<
                        ExprModel,
                        ParseErrorModel,
                    >::Err(e@));
                    assert(parse_and_more(tv, pos as int, accm).1 == p as int);
                }
                (Result::Err(e), p)
            },
            Result::Ok(right) => {
                let ghost rm = right@;
                let p2 = step_pos(p, pos + 1, toks.len());
                let b = Expr::Logical(Box::new(acc), op, Box::new(right));
                proof {
                    assert(b@ =~= ExprModel::Logical(Box::new(accm), opm, Box::new(rm)));
                    assert(parse_and_more(tv, pos as int, accm) == parse_and_more(
                        tv,
                        p2 as int,
                        b@,
                    ));
                }
                p_and_more(toks, p2, b)
            },
        }
    } else {
        proof {
            assert(parse_and_more(tv, pos as int, accm).0 == Result::<
                ExprModel,
                ParseErrorModel,
            >::Ok(accm));
            assert(parse_and_more(tv, pos as int, accm).1 == pos as int);
        }
        (Result::Ok(acc), pos)
    }
}

#[verifier::rlimit(100)]
fn p_and(toks: &Vec<Token>, pos: usize) -> (r: (Result<Expr, ParseError>, usize))
    requires
        pos <= toks@.len(),
    ensures
        expr_result_view(r.0) == parse_and(toks_view(toks@), pos as int).0,
        r.1 as int == parse_and(toks_view(toks@), pos as int).1,
        r.1 <= toks@.len(),
    decreases toks@.len() - pos, 11int,
{
    let n_toks = toks.len();
    let ghost tv = toks_view(toks@);
    let (r0, p) = p_equality(toks, pos);
    match r0 {
        Result::Err(e) => {
            proof {
                    lemma_parse_and_unfold(tv, pos as int);
                assert(parse_and(tv, pos as int).0 == Result::<ExprModel, ParseErrorModel>::Err(
                    e@,
                ));
                assert(parse_and(tv, pos as int).1 == p as int);
            }
            (Result::Err(e), p)
        },
        Result::Ok(first) => {
            let ghost fm = first@;
            let p2 = step_pos(p, pos, toks.len());
            proof {
                    lemma_parse_and_unfold(tv, pos as int);
                assert(parse_and(tv, pos as int) == parse_and_more(tv, p2 as int, fm));
            }
            p_and_more(toks, p2, first)
        },
    }
}

#[verifier::rlimit(100)]
fn p_or_more(toks: &Vec<Token>, pos: usize, acc: Expr) -> (r: (Result<Expr, ParseError>, usize))
    requires
        pos <= toks@.len(),
    ensures
        expr_result_view(r.0) == parse_or_more(toks_view(toks@), pos as int, acc@).0,
        r.1 as int == parse_or_more(toks_view(toks@), pos as int, acc@).1,
        r.1 <= toks@.len(),
    decreases toks@.len() - pos, 12int,
{
    proof {
        reveal(parse_or_more);
        reveal(parse_and);
    }
    let n_toks = toks.len();
    let ghost tv = toks_view(toks@);
    let ghost accm = acc@;
    let k = kind_of(toks, pos);
    if k == TokenType::Or {
        let op = token_clone(toks, pos);
        let ghost opm = op@;
        let (r0, p) = p_and(toks, pos + 1);
        match r0 {
            Result::Err(e) => {
                proof {
                    assert(parse_or_more(tv, pos as int, accm).0 == Result::<
                        ExprModel,
                        ParseErrorModel,
                    >::Err(e@));
                    assert(parse_or_more(tv, pos as int, accm).1 == p as int);
                }
                (Result::Err(e), p)
            },
            Result::Ok(right) => {
                let ghost rm = right@;
                let p2 = step_pos(p, pos + 1, toks.len());
                let b = Expr::Logical(Box::new(acc), op, Box::new(right));
                proof {
                    assert(b@ =~= ExprModel::Logical(Box::new(accm), opm, Box::new(rm)));
                    assert(parse_or_more(tv, pos as int, accm) == parse_or_more(
                        tv,
                        p2 as int,
                        b@,
                    ));
                }
                p_or_more(toks, p2, b)
            },
        }
    } else {
        proof {
            assert(parse_or_more(tv, pos as int, accm).0 == Result::<
                ExprModel,
                ParseErrorModel,
            >::Ok(accm));
            assert(parse_or_more(tv, pos as int, accm).1 == pos as int);
        }
        (Result::Ok(acc), pos)
    }
}

#[verifier::rlimit(100)]
fn p_or(toks: &Vec<Token>, pos: usize) -> (r: (Result<Expr, ParseError>, usize))
    requires
        pos <= toks@.len(),
    ensures
        expr_result_view(r.0) == parse_or(toks_view(toks@), pos as int).0,
        r.1 as int == parse_or(toks_view(toks@), pos as int).1,
        r.1 <= toks@.len(),
    decreases toks@.len() - pos, 13int,
{
    let n_toks = toks.len();
    let ghost tv = toks_view(toks@);
    let (r0, p) = p_and(toks, pos);
    match r0 {
        Result::Err(e) => {
            proof {
                    lemma_parse_or_unfold(tv, pos as int);
                assert(parse_or(tv, pos as int).0 == Result::<ExprModel, ParseErrorModel>::Err(
                    e@,
                ));
                assert(parse_or(tv, pos as int).1 == p as int);
            }
            (Result::Err(e), p)
        },
        Result::Ok(first) => {
            let ghost fm = first@;
            let p2 = step_pos(p, pos, toks.len());
            proof {
                    lemma_parse_or_unfold(tv, pos as int);
                assert(parse_or(tv, pos as int) == parse_or_more(tv, p2 as int, fm));
            }
            p_or_more(toks, p2, first)
        },
    }
}

#[verifier::rlimit(100)]
fn p_assignment(toks: &Vec<Token>, pos: usize) -> (r: (Result<Expr, ParseError>, usize))
    requires
        pos <= toks@.len(),
    ensures
        expr_result_view(r.0) == parse_assignment(toks_view(toks@), pos as int).0,
        r.1 as int == parse_assignment(toks_view(toks@), pos as int).1,
        r.1 <= toks@.len(),
    decreases toks@.len() - pos, 15int,
{
    let n_toks = toks.len();
    let ghost tv = toks_view(toks@);
    let (r0, p) = p_or(toks, pos);
    match r0 {
        Result::Err(e) => {
            proof {
                lemma_parse_assignment_unfold(tv, pos as int);
                assert(parse_assignment(tv, pos as int).0 == Result::<
                    ExprModel,
                    ParseErrorModel,
                >::Err(e@));
                assert(parse_assignment(tv, pos as int).1 == p as int);
            }
            (Result::Err(e), p)
        },
        Result::Ok(target) => {
            let ghost tm = target@;
            let p2 = step_pos(p, pos, toks.len());
            if kind_of(toks, p2) == TokenType::Equal {
                let eq_line = line_of(toks, p2);
                let (vr, vp) = p_assignment(toks, step_pos(p2 + 1, p2 + 1, toks.len()));
                match vr {
                    Result::Err(e) => {
                        proof {
                            lemma_parse_assignment_unfold(tv, pos as int);
                            assert(parse_assignment(tv, pos as int).0 == Result::<
                                ExprModel,
                                ParseErrorModel,
                            >::Err(e@));
                            assert(parse_assignment(tv, pos as int).1 == vp as int);
                        }
                        (Result::Err(e), vp)
                    },
                    Result::Ok(value) => {
                        let ghost vm = value@;
                        match target {
                            Expr::Identifier(name) => {
                                let ghost nm = name@;
                                let a = Expr::Assign(name, Box::new(value));
                                proof {
                                    lemma_parse_assignment_unfold(tv, pos as int);
                                    assert(a@ =~= ExprModel::Assign(nm, Box::new(vm)));
                                    assert(tm == ExprModel::Identifier(nm));
                                    assert(parse_assignment(tv, pos as int).0 == Result::<
                                        ExprModel,
                                        ParseErrorModel,
                                    >::Ok(a@));
                                    assert(parse_assignment(tv, pos as int).1 == vp as int);
                                }
                                (Result::Ok(a), vp)
                            },
                            _ => {
                                let printer = crate::printer::AstPrinter;
                                let rendered = printer.print_expr(&target);
                                let e = ParseError::InvalidAssignmentTarget(eq_line, rendered);
                                proof {
                                    lemma_parse_assignment_unfold(tv, pos as int);
                                    assert(!(tm is Identifier));
                                    assert(tok_at(tv, p2 as int).line == line_at(tv, p2 as int));
                                    assert(parse_assignment(tv, pos as int).0 == Result::<
                                        ExprModel,
                                        ParseErrorModel,
                                    >::Err(e@));
                                    assert(parse_assignment(tv, pos as int).1 == vp as int);
                                }
                                (Result::Err(e), vp)
                            },
                        }
                    },
                }
            } else {
                proof {
                    lemma_parse_assignment_unfold(tv, pos as int);
                    assert(parse_assignment(tv, pos as int).0 == Result::<
                        ExprModel,
                        ParseErrorModel,
                    >::Ok(tm));
                    assert(parse_assignment(tv, pos as int).1 == p as int);
                }
                (Result::Ok(target), p)
            }
        },
    }
}

#[verifier::rlimit(100)]
fn p_expression(toks: &Vec<Token>, pos: usize) -> (r: (Result<Expr, ParseError>, usize))
    requires
        pos <= toks@.len(),
    ensures
        expr_result_view(r.0) == parse_expression(toks_view(toks@), pos as int).0,
        r.1 as int == parse_expression(toks_view(toks@), pos as int).1,
        r.1 <= toks@.len(),
    decreases toks@.len() - pos, 16int,
{
    let n_toks = toks.len();
    let ghost tv = toks_view(toks@);
    let r = p_assignment(toks, pos);
    proof {
        reveal(parse_expression);
        reveal(parse_assignment);
        assert(parse_expression(tv, pos as int) == parse_assignment(tv, pos as int));
    }
    r
}

#[verifier::rlimit(100)]
fn p_statement(toks: &Vec<Token>, pos: usize) -> (r: (Result<Stmt, ParseError>, usize))
    requires
        pos <= toks@.len(),
    ensures
        stmt_result_view(r.0) == parse_statement(toks_view(toks@), pos as int).0,
        r.1 as int == parse_statement(toks_view(toks@), pos as int).1,
        r.1 <= toks@.len(),
    decreases toks@.len() - pos, 17int,
{
    let n_toks = toks.len();
    let k = kind_of(toks, pos);
    if k == TokenType::Print {
        let (r0, p) = p_expression(toks, pos + 1);
        match r0 {
            Result::Err(e) => (Result::Err(e), p),
            Result::Ok(e) => {
                let p2 = step_pos(p, pos + 1, toks.len());
                if kind_of(toks, p2) == TokenType::SemiColon {
                    (Result::Ok(Stmt::Print(e)), p2 + 1)
                } else {
                    (Result::Ok(Stmt::Print(e)), p2)
                }
            },
        }
    } else if k == TokenType::LeftBrace {
        let empty: Vec<Decl> = Vec::new();
        let (r0, p) = p_block_decls(toks, step_pos(pos + 1, pos + 1, toks.len()), empty);
        match r0 {
            Result::Err(e) => (Result::Err(e), p),
            Result::Ok(ds) => (Result::Ok(Stmt::Block(ds)), p),
        }
    } else if k == TokenType::If {
        let tok = token_clone(toks, pos);
        if kind_of(toks, pos + 1) != TokenType::LeftParen {
            let expected: String = "(".to_owned();
            (
                Result::Err(
                    ParseError::WrongTokenType(
                        line_of(toks, pos + 1),
                        lexeme_string(toks, pos + 1),
                        expected,
                    ),
                ),
                pos + 1,
            )
        } else {
            let (cr, cp) = p_expression(toks, pos + 2);
            match cr {
                Result::Err(e) => (Result::Err(e), cp),
                Result::Ok(cond) => {
                    let p2 = step_pos(cp, pos + 2, toks.len());
                    if kind_of(toks, p2) != TokenType::RightParen {
                        let expected: String = ")".to_owned();
                        (
                            Result::Err(
                                ParseError::WrongTokenType(
                                    line_of(toks, p2),
                                    lexeme_string(toks, p2),
                                    expected,
                                ),
                            ),
                            p2,
                        )
                    } else {
                        let (tr, tp) = p_statement(toks, step_pos(p2 + 1, p2 + 1, toks.len()));
                        match tr {
                            Result::Err(e) => (Result::Err(e), tp),
                            Result::Ok(then) => {
                                let p3 = step_pos(tp, p2 + 1, toks.len());
                                if kind_of(toks, p3) == TokenType::Else {
                                    let (er, ep) = p_statement(
                                        toks,
                                        step_pos(p3 + 1, p3 + 1, toks.len()),
                                    );
                                    match er {
                                        Result::Err(e) => (Result::Err(e), ep),
                                        Result::Ok(other) => {
                                            (
                                                Result::Ok(
                                                    Stmt::If(
                                                        tok,
                                                        cond,
                                                        Box::new(then),
                                                        Option::Some(Box::new(other)),
                                                    ),
                                                ),
                                                ep,
                                            )
                                        },
                                    }
                                } else {
                                    (
                                        Result::Ok(
                                            Stmt::If(tok, cond, Box::new(then), Option::None),
                                        ),
                                        p3,
                                    )
                                }
                            },
                        }
                    }
                },
            }
        }
    } else {
        let (r0, p) = p_expression(toks, pos);
        match r0 {
            Result::Err(e) => (Result::Err(e), p),
            Result::Ok(e) => {
                let p2 = step_pos(p, pos, toks.len());
                if kind_of(toks, p2) == TokenType::SemiColon {
                    (Result::Ok(Stmt::Expression(e)), p2 + 1)
                } else {
                    (Result::Ok(Stmt::Expression(e)), p2)
                }
            },
        }
    }
}

#[verifier::rlimit(100)]
fn p_declaration(toks: &Vec<Token>, pos: usize) -> (r: (Result<Decl, ParseError>, usize))
    requires
        pos <= toks@.len(),
    ensures
        decl_result_view(r.0) == parse_declaration(toks_view(toks@), pos as int).0,
        r.1 as int == parse_declaration(toks_view(toks@), pos as int).1,
        r.1 <= toks@.len(),
    decreases toks@.len() - pos, 18int,
{
    let n_toks = toks.len();
    if kind_of(toks, pos) != TokenType::Var {
        let (r0, p) = p_statement(toks, pos);
        let p2 = step_pos(p, pos, toks.len());
        let p3 = if kind_of(toks, p2) == TokenType::SemiColon {
            p2 + 1
        } else {
            p2
        };
        match r0 {
            Result::Err(e) => (Result::Err(e), p3),
            Result::Ok(s) => (Result::Ok(Decl::Statement(s)), p3),
        }
    } else {
        let k2 = kind_of(toks, pos + 1);
        if k2 != TokenType::Identifier {
            let mut msg = String::from_str("Found ");
            msg.append(kind_text_str(k2));
            msg.append(", expected Identifier");
            proof {
                assert(msg@ =~= "Found "@ + kind_text(k2) + ", expected Identifier"@);
            }
            (Result::Err(ParseError::UnexpectedToken(line_of(toks, pos + 1), msg)), pos + 1)
        } else {
            let name = token_clone(toks, pos + 1);
            if kind_of(toks, pos + 2) != TokenType::Equal {
                let p = if kind_of(toks, pos + 2) == TokenType::SemiColon {
                    pos + 3
                } else {
                    pos + 2
                };
                (Result::Ok(Decl::Declaration(name, Option::None)), p)
            } else {
                let (r0, p) = p_expression(toks, pos + 3);
                match r0 {
                    Result::Err(e) => (Result::Err(e), p),
                    Result::Ok(e) => {
                        let p2 = step_pos(p, pos + 3, toks.len());
                        let p3 = if kind_of(toks, p2) == TokenType::SemiColon {
                            p2 + 1
                        } else {
                            p2
                        };
                        (Result::Ok(Decl::Declaration(name, Option::Some(e))), p3)
                    },
                }
            }
        }
    }
}

#[verifier::rlimit(100)]
fn p_block_decls(toks: &Vec<Token>, pos: usize, acc: Vec<Decl>) -> (r: (
    Result<Vec<Decl>, ParseError>,
    usize,
))
    requires
        pos <= toks@.len(),
    ensures
        r.1 as int == parse_block_decls(
            toks_view(toks@),
            pos as int,
            crate::ast::decls_model(acc@, 0),
        ).1,
        r.1 <= toks@.len(),
        (r.0 is Ok) == (parse_block_decls(
            toks_view(toks@),
            pos as int,
            crate::ast::decls_model(acc@, 0),
        ).0 is Ok),
        r.0 is Ok ==> crate::ast::decls_model(r.0->Ok_0@, 0) == parse_block_decls(
            toks_view(toks@),
            pos as int,
            crate::ast::decls_model(acc@, 0),
        ).0->Ok_0,
        r.0 is Err ==> r.0->Err_0@ == parse_block_decls(
            toks_view(toks@),
            pos as int,
            crate::ast::decls_model(acc@, 0),
        ).0->Err_0,
    decreases toks@.len() - pos, 19int,
{
    let n_toks = toks.len();
    let k = kind_of(toks, pos);
    if k == TokenType::RightBrace {
        (Result::Ok(acc), pos + 1)
    } else if k == TokenType::Eof {
        (Result::Err(ParseError::UnexpectedEof(line_of(toks, pos))), pos)
    } else {
        let (r0, p) = p_declaration(toks, pos);
        match r0 {
            Result::Err(e) => (Result::Err(e), p),
            Result::Ok(d) => {
                let ghost acc0 = acc@;
                let ghost dv = d;
                let mut acc2 = acc;
                acc2.push(d);
                proof {
                    crate::ast::lemma_decls_model_push(acc0, dv, 0);
                }
                p_block_decls(toks, step_pos(p, pos + 1, toks.len()), acc2)
            },
        }
    }
}

fn starts_statement_kind(k: TokenType) -> (r: bool)
    ensures
        r == starts_statement(k),
{
    k == TokenType::Class || k == TokenType::Fun || k == TokenType::Fn || k == TokenType::Var || k
        == TokenType::For || k == TokenType::If || k == TokenType::While || k == TokenType::Print
        || k == TokenType::Return
}

fn p_sync_from(toks: &Vec<Token>, pos: usize) -> (r: usize)
    requires
        1 <= pos <= toks@.len(),
    ensures
        r as int == synchronize_from(toks_view(toks@), pos as int),
        r <= toks@.len(),
    decreases toks@.len() - pos,
{
    let n_toks = toks.len();
    let k = kind_of(toks, pos);
    if k == TokenType::Eof {
        pos
    } else if kind_of(toks, pos - 1) == TokenType::SemiColon {
        pos
    } else if starts_statement_kind(k) {
        pos
    } else {
        p_sync_from(toks, pos + 1)
    }
}

fn p_sync(toks: &Vec<Token>, pos: usize) -> (r: usize)
    requires
        pos <= toks@.len(),
    ensures
        r as int == synchronize(toks_view(toks@), pos as int),
        r <= toks@.len(),
{
    let n_toks = toks.len();
    if kind_of(toks, pos) == TokenType::Eof {
        pos
    } else {
        p_sync_from(toks, pos + 1)
    }
}

/// The parser's state: the token sequence and the position of the next
/// token to consider.
pub struct Parser {
    pub cursor: usize,
    pub tokens: Vec<Token>,
}

impl Parser {
    /// A fresh parser over `tokens`, at the start.
    pub fn new(tokens: Vec<Token>) -> (r: Parser)
        ensures
            r.tokens@ == tokens@,
            r.cursor == 0,
    {
        Parser { cursor: 0, tokens }
    }

    /// Parses the whole token sequence into one result per top-level
    /// declaration attempt, as `parse_program` describes: parsing continues
    /// past failures, recovering at statement boundaries, and never panics.
    pub fn parse(&mut self) -> (r: Vec<Result<Decl, ParseError>>)
        requires
            old(self).cursor <= old(self).tokens@.len(),
        ensures
            decl_results_view(r@) == parse_program(
                toks_view(old(self).tokens@),
                old(self).cursor as int,
            ),
            final(self).tokens@ == old(self).tokens@,
            kind_at(toks_view(final(self).tokens@), final(self).cursor as int) == TokenType::Eof,
    {
        let mut out: Vec<Result<Decl, ParseError>> = Vec::new();
        let n = self.tokens.len();
        let ghost tv = toks_view(self.tokens@);
        let ghost c0 = self.cursor as int;
        while kind_of(&self.tokens, self.cursor) != TokenType::Eof
            invariant
                n == self.tokens@.len(),
                self.cursor <= n,
                self.tokens@ == old(self).tokens@,
                tv == toks_view(self.tokens@),
                c0 == old(self).cursor as int,
                decl_results_view(out@) + parse_program(tv, self.cursor as int) == parse_program(
                    tv,
                    c0,
                ),
            decreases n - self.cursor,
        {
            let ghost cur0 = self.cursor as int;
            let ghost out0 = out@;
            let (d, p) = p_declaration(&self.tokens, self.cursor);
            let p2 = match &d {
                Result::Err(_) => p_sync(&self.tokens, step_pos(p, self.cursor, n)),
                Result::Ok(_) => p,
            };
            let next = step_pos(p2, self.cursor + 1, n);
            out.push(d);
            proof {
                            let dref = out@[out@.len() - 1];
                assert(decl_results_view(out@) =~= decl_results_view(out0).push(
                    decl_result_view(dref),
                ));
                assert(parse_program(tv, cur0) == seq![decl_result_view(dref)] + parse_program(
                    tv,
                    next as int,
                ));
                assert(decl_results_view(out@) + parse_program(tv, next as int) =~= decl_results_view(
                    out0,
                ) + parse_program(tv, cur0));
            }
            self.cursor = next;
        }
        proof {
                    assert(parse_program(tv, self.cursor as int) =~= Seq::empty());
            assert(decl_results_view(out@) =~= parse_program(tv, c0));
        }
        out
    }
}

} // verus!
