//! What building produces from the syntax tree, as spec functions: the
//! executable tree each syntax node turns into, the scope after each
//! statement, and the static-analysis errors, in the order they are found.

use vstd::prelude::*;

use super::base::{last_index_of, CodeSite, Expr, ExprNode, LExpr, ScopeView, Statement};
use super::error::StaticAnalysisError;
use super::expressions::Identifier;
use crate::ast;

verus! {

pub open spec fn site_of(a: ast::Expr) -> CodeSite {
    CodeSite { start: a.start, end: a.end }
}

/// The character codes of a string.
pub open spec fn char_codes(s: Seq<char>) -> Seq<i32> {
    Seq::new(s.len(), |i: int| s[i] as i32)
}

/// Every name in `a` is in scope, and `a` holds no syntax-error node. Building
/// requires this: the grammar guarantees it, so a violation is a defect of the
/// caller, not an error of the program.
pub open spec fn expr_resolves(sc: ScopeView, a: ast::Expr) -> bool
    decreases a, 0nat,
{
    match a.kind {
        ast::ExprKind::Number(_) => true,
        ast::ExprKind::Char(_) => true,
        ast::ExprKind::String(_) => true,
        ast::ExprKind::Array(es) => list_resolves(sc, es@),
        ast::ExprKind::BinaryOp(l, _, r) => expr_resolves(sc, *l) && expr_resolves(sc, *r),
        ast::ExprKind::UnaryOp(_, x) => expr_resolves(sc, *x),
        ast::ExprKind::Call(_, args) => list_resolves(sc, args@),
        ast::ExprKind::Identifier(name) => sc.lookup(name@) is Some,
        ast::ExprKind::Subscription(x, i) => expr_resolves(sc, *x) && expr_resolves(sc, *i),
        ast::ExprKind::Error => false,
    }
}

pub open spec fn list_resolves(sc: ScopeView, es: Seq<ast::Expr>) -> bool
    decreases es, 0nat,
{
    forall|i: int| 0 <= i < es.len() ==> expr_resolves(sc, #[trigger] es[i])
}

/// An assignment target is a variable in scope, or an element of an array.
pub open spec fn lexpr_resolves(sc: ScopeView, a: ast::Expr) -> bool {
    match a.kind {
        ast::ExprKind::Identifier(name) => sc.lookup(name@) is Some,
        ast::ExprKind::Subscription(x, i) => expr_resolves(sc, *x) && expr_resolves(sc, *i),
        _ => false,
    }
}

/// Every name of a statement is in scope where it is used, and every
/// assignment target is a variable or an array element.
pub open spec fn stmt_resolves(sc: ScopeView, s: ast::Statement) -> bool
    decreases s, 0nat,
{
    match s {
        ast::Statement::Expr(e) => expr_resolves(sc, e),
        ast::Statement::Return(e) => expr_resolves(sc, e),
        ast::Statement::Assign(l, e) => lexpr_resolves(sc, l) && expr_resolves(sc, e),
        ast::Statement::Declare(name, e) => expr_resolves(sc.declare(name@), e),
        ast::Statement::If(c, b) => expr_resolves(sc, c) && block_resolves(sc.open(), b@),
        ast::Statement::While(c, b) => expr_resolves(sc, c) && block_resolves(sc.open(), b@),
    }
}

/// Every statement of a block resolves in the scope it is built in.
pub open spec fn block_resolves(sc: ScopeView, ss: Seq<ast::Statement>) -> bool
    decreases ss, 0nat,
{
    forall|i: int|
        0 <= i < ss.len() ==> stmt_resolves(block_scope(sc, ss, i as nat), #[trigger] ss[i])
}

/// The errors found while building an expression.
pub open spec fn expr_errors(names: Seq<Seq<char>>, sc: ScopeView, a: ast::Expr) -> Seq<
    StaticAnalysisError,
>
    decreases a, 0nat,
{
    match a.kind {
        ast::ExprKind::Number(_) => seq![],
        ast::ExprKind::Char(_) => seq![],
        ast::ExprKind::String(_) => seq![],
        ast::ExprKind::Array(es) => list_errors(names, sc, es@, es@.len()),
        ast::ExprKind::BinaryOp(l, _, r) => expr_errors(names, sc, *l) + expr_errors(names, sc, *r),
        ast::ExprKind::UnaryOp(_, x) => expr_errors(names, sc, *x),
        ast::ExprKind::Call(name, args) => list_errors(names, sc, args@, args@.len()) + if last_index_of(
            names,
            name@,
        ) is Some {
            seq![]
        } else {
            seq![StaticAnalysisError::CallUnknownFunction(name, a.start, a.end)]
        },
        ast::ExprKind::Identifier(_) => seq![],
        ast::ExprKind::Subscription(x, i) => expr_errors(names, sc, *x) + expr_errors(names, sc, *i),
        ast::ExprKind::Error => seq![],
    }
}

/// The errors found while building `es[..n]`, in order.
pub open spec fn list_errors(names: Seq<Seq<char>>, sc: ScopeView, es: Seq<ast::Expr>, n: nat) -> Seq<
    StaticAnalysisError,
>
    decreases es, n,
{
    if n == 0 || n > es.len() {
        seq![]
    } else {
        list_errors(names, sc, es, (n - 1) as nat) + expr_errors(names, sc, es[n - 1])
    }
}

/// `x` is what building `a` produces.
pub open spec fn expr_built(names: Seq<Seq<char>>, sc: ScopeView, a: ast::Expr, x: Expr) -> bool
    decreases a, 0nat,
{
    &&& x.site == site_of(a)
    &&& match a.kind {
        ast::ExprKind::Number(n) => x.node == ExprNode::IntegerLiteral(n),
        ast::ExprKind::Char(c) => x.node == ExprNode::IntegerLiteral(c as i32),
        ast::ExprKind::String(s) => x.node matches ExprNode::StringLiteral(codes) && codes@
            == char_codes(s@),
        ast::ExprKind::Array(es) => x.node matches ExprNode::ArrayLiteral(xs) && list_built(
            names,
            sc,
            es@,
            xs@,
        ),
        ast::ExprKind::BinaryOp(l, op, r) => x.node matches ExprNode::Binary(op2, xl, xr) && op2
            == op && expr_built(names, sc, *l, *xl) && expr_built(names, sc, *r, *xr),
        ast::ExprKind::UnaryOp(op, e) => x.node matches ExprNode::Unary(op2, xe) && op2 == op
            && expr_built(names, sc, *e, *xe),
        ast::ExprKind::Call(name, args) => match last_index_of(names, name@) {
            Some(id) => x.node matches ExprNode::Call(fid, xs) && fid.idx == id && list_built(
                names,
                sc,
                args@,
                xs@,
            ),
            None => x.node is BadExpr,
        },
        ast::ExprKind::Identifier(name) => sc.lookup(name@) matches Some(slot) && x.node
            == ExprNode::Identifier(Identifier { var_id: slot }),
        ast::ExprKind::Subscription(e, i) => x.node matches ExprNode::Subscription(xe, xi)
            && expr_built(names, sc, *e, *xe) && expr_built(names, sc, *i, *xi),
        ast::ExprKind::Error => false,
    }
}

/// `xs` is what building each of `es` produces.
pub open spec fn list_built(names: Seq<Seq<char>>, sc: ScopeView, es: Seq<ast::Expr>, xs: Seq<Expr>) -> bool
    decreases es, 0nat,
{
    &&& xs.len() == es.len()
    &&& forall|i: int| 0 <= i < es.len() ==> expr_built(names, sc, #[trigger] es[i], xs[i])
}

/// The errors found while building an assignment target.
pub open spec fn lexpr_errors(names: Seq<Seq<char>>, sc: ScopeView, a: ast::Expr) -> Seq<
    StaticAnalysisError,
> {
    match a.kind {
        ast::ExprKind::Subscription(x, i) => expr_errors(names, sc, *x) + expr_errors(names, sc, *i),
        _ => seq![],
    }
}

/// `x` is what building the assignment target `a` produces.
pub open spec fn lexpr_built(names: Seq<Seq<char>>, sc: ScopeView, a: ast::Expr, x: LExpr) -> bool {
    match a.kind {
        ast::ExprKind::Identifier(name) => sc.lookup(name@) matches Some(slot) && x
            == LExpr::Identifier(Identifier { var_id: slot }),
        ast::ExprKind::Subscription(e, i) => x matches LExpr::Subscription(xe, xi) && expr_built(
            names,
            sc,
            *e,
            *xe,
        ) && expr_built(names, sc, *i, *xi),
        _ => false,
    }
}

/// The number of declarations in a statement, nested blocks included.
pub open spec fn stmt_decls(s: ast::Statement) -> nat
    decreases s, 0nat,
{
    match s {
        ast::Statement::Declare(_, _) => 1,
        ast::Statement::If(_, b) => block_decls(b@, b@.len()),
        ast::Statement::While(_, b) => block_decls(b@, b@.len()),
        _ => 0,
    }
}

/// The number of declarations in `ss[..n]`.
pub open spec fn block_decls(ss: Seq<ast::Statement>, n: nat) -> nat
    decreases ss, n,
{
    if n == 0 || n > ss.len() {
        0
    } else {
        block_decls(ss, (n - 1) as nat) + stmt_decls(ss[n - 1])
    }
}

/// The scope after building a statement.
pub open spec fn stmt_scope(sc: ScopeView, s: ast::Statement) -> ScopeView
    decreases s, 0nat,
{
    match s {
        ast::Statement::Declare(name, _) => sc.declare(name@),
        ast::Statement::If(_, b) => sc.after_block(block_scope(sc.open(), b@, b@.len())),
        ast::Statement::While(_, b) => sc.after_block(block_scope(sc.open(), b@, b@.len())),
        _ => sc,
    }
}

/// The scope after building `ss[..n]`.
pub open spec fn block_scope(sc: ScopeView, ss: Seq<ast::Statement>, n: nat) -> ScopeView
    decreases ss, n,
{
    if n == 0 || n > ss.len() {
        sc
    } else {
        stmt_scope(block_scope(sc, ss, (n - 1) as nat), ss[n - 1])
    }
}

/// The errors found while building a statement.
pub open spec fn stmt_errors(names: Seq<Seq<char>>, sc: ScopeView, s: ast::Statement) -> Seq<
    StaticAnalysisError,
>
    decreases s, 0nat,
{
    match s {
        ast::Statement::Expr(e) => expr_errors(names, sc, e),
        ast::Statement::Return(e) => expr_errors(names, sc, e),
        ast::Statement::Assign(l, e) => lexpr_errors(names, sc, l) + expr_errors(names, sc, e),
        ast::Statement::Declare(name, e) => expr_errors(names, sc.declare(name@), e),
        ast::Statement::If(c, b) => expr_errors(names, sc, c) + block_errors(
            names,
            sc.open(),
            b@,
            b@.len(),
        ),
        ast::Statement::While(c, b) => expr_errors(names, sc, c) + block_errors(
            names,
            sc.open(),
            b@,
            b@.len(),
        ),
    }
}

/// The errors found while building `ss[..n]`, in order.
pub open spec fn block_errors(names: Seq<Seq<char>>, sc: ScopeView, ss: Seq<ast::Statement>, n: nat) -> Seq<
    StaticAnalysisError,
>
    decreases ss, n,
{
    if n == 0 || n > ss.len() {
        seq![]
    } else {
        block_errors(names, sc, ss, (n - 1) as nat) + stmt_errors(
            names,
            block_scope(sc, ss, (n - 1) as nat),
            ss[n - 1],
        )
    }
}

/// `x` is what building the statement `s` produces.
pub open spec fn stmt_built(names: Seq<Seq<char>>, sc: ScopeView, s: ast::Statement, x: Statement) -> bool
    decreases s, 0nat,
{
    match s {
        ast::Statement::Expr(e) => x matches Statement::Expr(xe) && expr_built(names, sc, e, xe),
        ast::Statement::Return(e) => x matches Statement::Return(xe) && expr_built(names, sc, e, xe),
        ast::Statement::Assign(l, e) => x matches Statement::Assign(xl, xe) && lexpr_built(
            names,
            sc,
            l,
            xl,
        ) && expr_built(names, sc, e, xe),
        ast::Statement::Declare(name, e) => x matches Statement::Assign(xl, xe) && xl
            == LExpr::Identifier(Identifier { var_id: sc.current as usize }) && expr_built(
            names,
            sc.declare(name@),
            e,
            xe,
        ),
        ast::Statement::If(c, b) => x matches Statement::If(xc, xb) && expr_built(names, sc, c, xc)
            && block_built(names, sc.open(), b@, xb@),
        ast::Statement::While(c, b) => x matches Statement::While(xc, xb) && expr_built(
            names,
            sc,
            c,
            xc,
        ) && block_built(names, sc.open(), b@, xb@),
    }
}

/// `xs` is what building the block `ss` in scope `sc` produces.
pub open spec fn block_built(
    names: Seq<Seq<char>>,
    sc: ScopeView,
    ss: Seq<ast::Statement>,
    xs: Seq<Statement>,
) -> bool
    decreases ss, 0nat,
{
    &&& xs.len() == ss.len()
    &&& forall|i: int|
        0 <= i < ss.len() ==> stmt_built(
            names,
            block_scope(sc, ss, i as nat),
            #[trigger] ss[i],
            xs[i],
        )
}

pub proof fn lemma_block_decls_mono(ss: Seq<ast::Statement>, i: nat, n: nat)
    requires
        i <= n <= ss.len(),
    ensures
        block_decls(ss, i) <= block_decls(ss, n),
    decreases n - i,
{
    if i < n {
        lemma_block_decls_mono(ss, i, (n - 1) as nat);
    }
}

} // verus!
