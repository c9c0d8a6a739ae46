//! The abstract syntax tree: expressions, statements and declarations.
//! Every node is a pure value owning its children; the tree is read many
//! times and never mutated.

use vstd::prelude::*;
use crate::token::{Token, TokenModel};

verus! {

/// An expression.
#[derive(Debug)]
pub enum Expr {
    /// Assignment to a variable: the target name token and the value.
    Assign(Token, Box<Expr>),
    /// A binary operator applied to two operands.
    Binary(Box<Expr>, Token, Box<Expr>),
    /// A parenthesized expression.
    Grouping(Box<Expr>),
    /// A literal value, carried by its token.
    Literal(Token),
    /// A short-circuit `and` or `or`.
    Logical(Box<Expr>, Token, Box<Expr>),
    /// A prefix operator applied to one operand.
    Unary(Token, Box<Expr>),
    /// A variable reference.
    Identifier(Token),
}

/// A statement.
#[derive(Debug)]
pub enum Stmt {
    /// A bare expression evaluated for its value.
    Expression(Expr),
    /// `if ( cond ) then (else other)?`; the token is the `if` itself.
    If(Token, Expr, Box<Stmt>, Option<Box<Stmt>>),
    /// `print expr ;`.
    Print(Expr),
    /// `{ declaration* }`.
    Block(Vec<Decl>),
}

/// A top-level declaration.
#[derive(Debug)]
pub enum Decl {
    /// `var name (= initializer)? ;`.
    Declaration(Token, Option<Expr>),
    /// Any other statement.
    Statement(Stmt),
}

/// Mathematical model of an expression.
#[verifier::ext_equal]
pub enum ExprModel {
    Assign(TokenModel, Box<ExprModel>),
    Binary(Box<ExprModel>, TokenModel, Box<ExprModel>),
    Grouping(Box<ExprModel>),
    Literal(TokenModel),
    Logical(Box<ExprModel>, TokenModel, Box<ExprModel>),
    Unary(TokenModel, Box<ExprModel>),
    Identifier(TokenModel),
}

/// Mathematical model of a statement.
#[verifier::ext_equal]
pub enum StmtModel {
    Expression(ExprModel),
    If(TokenModel, ExprModel, Box<StmtModel>, Option<Box<StmtModel>>),
    Print(ExprModel),
    Block(Seq<DeclModel>),
}

/// Mathematical model of a declaration.
#[verifier::ext_equal]
pub enum DeclModel {
    Declaration(TokenModel, Option<ExprModel>),
    Statement(StmtModel),
}

/// The model of an expression.
pub open spec fn expr_model(e: Expr) -> ExprModel
    decreases e,
{
    match e {
        Expr::Assign(t, v) => ExprModel::Assign(t@, Box::new(expr_model(*v))),
        Expr::Binary(l, op, r) => {
            ExprModel::Binary(Box::new(expr_model(*l)), op@, Box::new(expr_model(*r)))
        },
        Expr::Grouping(inner) => ExprModel::Grouping(Box::new(expr_model(*inner))),
        Expr::Literal(t) => ExprModel::Literal(t@),
        Expr::Logical(l, op, r) => {
            ExprModel::Logical(Box::new(expr_model(*l)), op@, Box::new(expr_model(*r)))
        },
        Expr::Unary(op, inner) => ExprModel::Unary(op@, Box::new(expr_model(*inner))),
        Expr::Identifier(t) => ExprModel::Identifier(t@),
    }
}

/// The model of a statement.
pub open spec fn stmt_model(s: Stmt) -> StmtModel
    decreases s,
{
    match s {
        Stmt::Expression(e) => StmtModel::Expression(expr_model(e)),
        Stmt::If(t, c, th, el) => {
            StmtModel::If(
                t@,
                expr_model(c),
                Box::new(stmt_model(*th)),
                match el {
                    Option::None => Option::None,
                    Option::Some(s2) => Option::Some(Box::new(stmt_model(*s2))),
                },
            )
        },
        Stmt::Print(e) => StmtModel::Print(expr_model(e)),
        Stmt::Block(ds) => StmtModel::Block(decls_model(ds@, 0)),
    }
}

/// The models of declarations `ds[i..]`.
pub open spec fn decls_model(ds: Seq<Decl>, i: int) -> Seq<DeclModel>
    decreases ds, ds.len() - i,
{
    if i < 0 || i >= ds.len() {
        Seq::empty()
    } else {
        seq![decl_model(ds[i])] + decls_model(ds, i + 1)
    }
}

/// The model of a declaration.
pub open spec fn decl_model(d: Decl) -> DeclModel
    decreases d,
{
    match d {
        Decl::Declaration(t, init) => {
            DeclModel::Declaration(
                t@,
                match init {
                    Option::None => Option::None,
                    Option::Some(e) => Option::Some(expr_model(e)),
                },
            )
        },
        Decl::Statement(s) => DeclModel::Statement(stmt_model(s)),
    }
}

impl View for Expr {
    type V = ExprModel;

    open spec fn view(&self) -> ExprModel {
        expr_model(*self)
    }
}

impl View for Stmt {
    type V = StmtModel;

    open spec fn view(&self) -> StmtModel {
        stmt_model(*self)
    }
}

impl View for Decl {
    type V = DeclModel;

    open spec fn view(&self) -> DeclModel {
        decl_model(*self)
    }
}

/// `decls_model` of a sequence with one more declaration appended.
pub proof fn lemma_decls_model_push(ds: Seq<Decl>, d: Decl, i: int)
    requires
        0 <= i <= ds.len(),
    ensures
        decls_model(ds.push(d), i) == decls_model(ds, i).push(decl_model(d)),
    decreases ds.len() - i,
{
    if i < ds.len() {
        lemma_decls_model_push(ds, d, i + 1);
        assert(ds.push(d)[i] == ds[i]);
        assert(decls_model(ds.push(d), i) =~= decls_model(ds, i).push(decl_model(d)));
    } else {
        assert(ds.push(d)[i] == d);
        assert(decls_model(ds.push(d), i + 1) =~= Seq::empty());
        assert(decls_model(ds.push(d), i) =~= decls_model(ds, i).push(decl_model(d)));
    }
}

/// `decls_model` keeps the number of declarations.
pub proof fn lemma_decls_model_len(ds: Seq<Decl>, i: int)
    requires
        0 <= i <= ds.len(),
    ensures
        decls_model(ds, i).len() == ds.len() - i,
    decreases ds.len() - i,
{
    if i < ds.len() {
        lemma_decls_model_len(ds, i + 1);
    }
}

/// `decls_model` maps each declaration to its model, position by position.
pub proof fn lemma_decls_model_index(ds: Seq<Decl>, i: int, j: int)
    requires
        0 <= i <= j < ds.len(),
    ensures
        decls_model(ds, i).len() == ds.len() - i,
        decls_model(ds, i)[j - i] == decl_model(ds[j]),
    decreases j - i,
{
    lemma_decls_model_len(ds, i);
    if j > i {
        lemma_decls_model_index(ds, i + 1, j);
        assert(decls_model(ds, i)[j - i] == decls_model(ds, i + 1)[j - i - 1]);
    }
}


/// A variable name, as the scaffolding for user-defined functions names it.
#[derive(Debug)]
pub struct Identifier(pub Token);

/// A brace-delimited sequence of declarations, as the scaffolding for
/// user-defined functions names it.
#[derive(Debug)]
pub struct Block(pub Vec<Decl>);

} // verus!
