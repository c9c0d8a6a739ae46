//! The AST printer: a deterministic, pure, canonical textual rendering of
//! any syntax node, used for diagnostics and for tests of parser output.
//! Nested blocks are indented by two spaces per nesting level.

use vstd::prelude::*;
use crate::ast::{Expr, Stmt, Decl, ExprModel, StmtModel, DeclModel};

verus! {

/// The canonical rendering of an expression.
pub open spec fn render_expr(e: ExprModel) -> Seq<char>
    decreases e,
{
    match e {
        ExprModel::Assign(t, v) => t.lexeme + " = "@ + render_expr(*v),
        ExprModel::Binary(l, op, r) => {
            render_expr(*l) + " "@ + op.lexeme + " "@ + render_expr(*r)
        },
        ExprModel::Grouping(inner) => "("@ + render_expr(*inner) + ")"@,
        ExprModel::Literal(t) => t.lexeme,
        ExprModel::Logical(l, op, r) => {
            render_expr(*l) + " "@ + op.lexeme + " "@ + render_expr(*r)
        },
        ExprModel::Unary(op, inner) => op.lexeme + render_expr(*inner),
        ExprModel::Identifier(t) => t.lexeme,
    }
}

/// Two spaces for each nesting level.
pub open spec fn indent_text(k: nat) -> Seq<char>
    decreases k,
{
    if k == 0 {
        Seq::empty()
    } else {
        "  "@ + indent_text((k - 1) as nat)
    }
}

/// The canonical rendering of a statement at nesting level `ind`.
pub open spec fn render_stmt(s: StmtModel, ind: nat) -> Seq<char>
    decreases s,
{
    match s {
        StmtModel::Expression(e) => render_expr(e) + ";"@,
        StmtModel::Print(e) => "print "@ + render_expr(e) + ";"@,
        StmtModel::If(_t, c, th, el) => {
            let head = "if ("@ + render_expr(c) + ") "@ + render_stmt(*th, ind);
            match el {
                Option::None => head,
                Option::Some(other) => head + " else "@ + render_stmt(*other, ind),
            }
        },
        StmtModel::Block(ds) => {
            "{\n"@ + render_decls(ds, ind + 1, 0) + indent_text(ind) + "}"@
        },
    }
}

/// The renderings of the declarations `ds[i..]`, one per line, each at
/// nesting level `ind`.
pub open spec fn render_decls(ds: Seq<DeclModel>, ind: nat, i: int) -> Seq<char>
    decreases ds, ds.len() - i,
{
    if i < 0 || i >= ds.len() {
        Seq::empty()
    } else {
        indent_text(ind) + render_decl(ds[i], ind) + "\n"@ + render_decls(ds, ind, i + 1)
    }
}

/// The canonical rendering of a declaration at nesting level `ind`.
pub open spec fn render_decl(d: DeclModel, ind: nat) -> Seq<char>
    decreases d,
{
    match d {
        DeclModel::Declaration(t, init) => {
            match init {
                Option::None => "var "@ + t.lexeme + ";"@,
                Option::Some(e) => "var "@ + t.lexeme + " = "@ + render_expr(e) + ";"@,
            }
        },
        DeclModel::Statement(s) => render_stmt(s, ind),
    }
}

/// An upper bound on block nesting below a statement.
pub open spec fn stmt_depth(s: StmtModel) -> nat
    decreases s,
{
    match s {
        StmtModel::Expression(_) => 0,
        StmtModel::Print(_) => 0,
        StmtModel::If(_t, _c, th, el) => {
            let a = stmt_depth(*th);
            let b = match el {
                Option::None => 0,
                Option::Some(other) => stmt_depth(*other),
            };
            if a >= b {
                a
            } else {
                b
            }
        },
        StmtModel::Block(ds) => 1 + decls_depth(ds, 0),
    }
}

/// An upper bound on block nesting below the declarations `ds[i..]`.
pub open spec fn decls_depth(ds: Seq<DeclModel>, i: int) -> nat
    decreases ds, ds.len() - i,
{
    if i < 0 || i >= ds.len() {
        0
    } else {
        let a = decl_depth(ds[i]);
        let b = decls_depth(ds, i + 1);
        if a >= b {
            a
        } else {
            b
        }
    }
}

/// An upper bound on block nesting below a declaration.
pub open spec fn decl_depth(d: DeclModel) -> nat
    decreases d,
{
    match d {
        DeclModel::Declaration(_t, _e) => 0,
        DeclModel::Statement(s) => stmt_depth(s),
    }
}

/// The AST printer. It owns no state; each method renders one node.
#[derive(Default)]
pub struct AstPrinter;

impl AstPrinter {
    /// Renders an expression, exactly as `render_expr` describes.
    pub fn print_expr(&self, e: &Expr) -> (s: String)
        ensures
            s@ == render_expr(e@),
        decreases *e,
    {
        match e {
            Expr::Assign(t, v) => {
                let mut s = t.lexeme.clone();
                s.append(" = ");
                let vs = self.print_expr(&**v);
                s.append(vs.as_str());
                assert(s@ =~= render_expr(e@));
                s
            },
            Expr::Binary(l, op, r) => {
                let mut s = self.print_expr(&**l);
                s.append(" ");
                s.append(op.lexeme.as_str());
                s.append(" ");
                let rs = self.print_expr(&**r);
                s.append(rs.as_str());
                assert(s@ =~= render_expr(e@));
                s
            },
            Expr::Grouping(inner) => {
                let mut s = String::from_str("(");
                let is = self.print_expr(&**inner);
                s.append(is.as_str());
                s.append(")");
                assert(s@ =~= render_expr(e@));
                s
            },
            Expr::Literal(t) => t.lexeme.clone(),
            Expr::Logical(l, op, r) => {
                let mut s = self.print_expr(&**l);
                s.append(" ");
                s.append(op.lexeme.as_str());
                s.append(" ");
                let rs = self.print_expr(&**r);
                s.append(rs.as_str());
                assert(s@ =~= render_expr(e@));
                s
            },
            Expr::Unary(op, inner) => {
                let mut s = op.lexeme.clone();
                let is = self.print_expr(&**inner);
                s.append(is.as_str());
                assert(s@ =~= render_expr(e@));
                s
            },
            Expr::Identifier(t) => t.lexeme.clone(),
        }
    }

    fn push_indent(&self, k: usize, out: &mut String)
        ensures
            final(out)@ == old(out)@ + indent_text(k as nat),
        decreases k,
    {
        if k > 0 {
            out.append("  ");
            self.push_indent(k - 1, out);
            assert(out@ =~= old(out)@ + indent_text(k as nat)) by {
                assert(indent_text(k as nat) == "  "@ + indent_text((k - 1) as nat));
            }
        } else {
            assert(out@ =~= old(out)@ + indent_text(0));
        }
    }

    fn print_stmt_at(&self, s: &Stmt, ind: usize) -> (r: String)
        requires
            ind + stmt_depth(s@) <= usize::MAX,
        ensures
            r@ == render_stmt(s@, ind as nat),
        decreases *s,
    {
        match s {
            Stmt::Expression(e) => {
                let mut r = self.print_expr(e);
                r.append(";");
                assert(r@ =~= render_stmt(s@, ind as nat));
                r
            },
            Stmt::Print(e) => {
                let mut r = String::from_str("print ");
                let es = self.print_expr(e);
                r.append(es.as_str());
                r.append(";");
                assert(r@ =~= render_stmt(s@, ind as nat));
                r
            },
            Stmt::If(_t, c, th, el) => {
                let mut r = String::from_str("if (");
                let cs = self.print_expr(c);
                r.append(cs.as_str());
                r.append(") ");
                let ts = self.print_stmt_at(&**th, ind);
                r.append(ts.as_str());
                match el {
                    Option::None => {},
                    Option::Some(other) => {
                        r.append(" else ");
                        let os = self.print_stmt_at(&**other, ind);
                        r.append(os.as_str());
                    },
                }
                assert(r@ =~= render_stmt(s@, ind as nat));
                r
            },
            Stmt::Block(ds) => {
                let mut r = String::from_str("{\n");
                proof {
                    assert(decreases_to!(*s => s->Block_0));
                    assert(decreases_to!(s->Block_0 => s->Block_0@));
                }
                let body = self.print_decls_at(ds, ind + 1, 0);
                r.append(body.as_str());
                self.push_indent(ind, &mut r);
                r.append("}");
                assert(r@ =~= render_stmt(s@, ind as nat));
                r
            },
        }
    }

    fn print_decls_at(&self, ds: &Vec<Decl>, ind: usize, i: usize) -> (r: String)
        requires
            i <= ds@.len(),
            ind + decls_depth(crate::ast::decls_model(ds@, 0), i as int) <= usize::MAX,
        ensures
            r@ == render_decls(crate::ast::decls_model(ds@, 0), ind as nat, i as int),
        decreases ds@, ds@.len() - i,
    {
        let ghost dsm = crate::ast::decls_model(ds@, 0);
        proof {
            crate::ast::lemma_decls_model_len(ds@, 0);
        }
        if i >= ds.len() {
            let r = String::new();
            assert(r@ =~= render_decls(dsm, ind as nat, i as int));
            r
        } else {
            proof {
                crate::ast::lemma_decls_model_index(ds@, 0, i as int);
                assert(dsm[i as int] == crate::ast::decl_model(ds@[i as int]));
                assert(decreases_to!(ds@ => ds@[i as int]));
            }
            let mut r = String::new();
            self.push_indent(ind, &mut r);
            let es = self.print_decl_at(&ds[i], ind);
            r.append(es.as_str());
            r.append("\n");
            let rest = self.print_decls_at(ds, ind, i + 1);
            r.append(rest.as_str());
            assert(r@ =~= render_decls(dsm, ind as nat, i as int));
            r
        }
    }

    fn print_decl_at(&self, d: &Decl, ind: usize) -> (r: String)
        requires
            ind + decl_depth(d@) <= usize::MAX,
        ensures
            r@ == render_decl(d@, ind as nat),
        decreases *d,
    {
        match d {
            Decl::Declaration(t, init) => {
                let mut r = String::from_str("var ");
                r.append(t.lexeme.as_str());
                match init {
                    Option::None => {},
                    Option::Some(e) => {
                        r.append(" = ");
                        let es = self.print_expr(e);
                        r.append(es.as_str());
                    },
                }
                r.append(";");
                assert(r@ =~= render_decl(d@, ind as nat));
                r
            },
            Decl::Statement(s) => self.print_stmt_at(s, ind),
        }
    }

    /// Renders a statement at the outermost nesting level, exactly as
    /// `render_stmt` describes.
    pub fn print_stmt(&self, s: &Stmt) -> (r: String)
        requires
            stmt_depth(s@) <= usize::MAX,
        ensures
            r@ == render_stmt(s@, 0),
    {
        self.print_stmt_at(s, 0)
    }

    /// Renders a declaration at the outermost nesting level, exactly as
    /// `render_decl` describes.
    pub fn print_decl(&self, d: &Decl) -> (r: String)
        requires
            decl_depth(d@) <= usize::MAX,
        ensures
            r@ == render_decl(d@, 0),
    {
        self.print_decl_at(d, 0)
    }
}

} // verus!
