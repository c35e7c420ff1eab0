//! Checks that every name of a program resolves, so that a driver can test
//! what building requires before it builds.

use vstd::prelude::*;

use super::base::ScopeStack;
use super::building::{
    block_decls, block_resolves, block_scope, expr_resolves, lemma_block_decls_mono,
    lexpr_resolves, list_resolves, stmt_decls, stmt_resolves, stmt_scope,
};
use super::main::{args_scope, frames_fit, func_scope, programme_resolves};
use crate::ast;

verus! {

fn check_expr(scope_stack: &ScopeStack, expr: &ast::Expr) -> (r: bool)
    requires
        scope_stack.wf(),
    ensures
        r == expr_resolves(scope_stack@, *expr),
    decreases expr, 0nat,
{
    match &expr.kind {
        ast::ExprKind::Number(_) => true,
        ast::ExprKind::Char(_) => true,
        ast::ExprKind::String(_) => true,
        ast::ExprKind::Array(es) => check_list(scope_stack, es),
        ast::ExprKind::BinaryOp(l, _, r) => check_expr(scope_stack, l) && check_expr(scope_stack, r),
        ast::ExprKind::UnaryOp(_, x) => check_expr(scope_stack, x),
        ast::ExprKind::Call(_, args) => check_list(scope_stack, args),
        ast::ExprKind::Identifier(name) => scope_stack.find(name.as_str()).is_some(),
        ast::ExprKind::Subscription(x, i) => check_expr(scope_stack, x) && check_expr(
            scope_stack,
            i,
        ),
        ast::ExprKind::Error => false,
    }
}

fn check_list(scope_stack: &ScopeStack, exprs: &Vec<ast::Expr>) -> (r: bool)
    requires
        scope_stack.wf(),
    ensures
        r == list_resolves(scope_stack@, exprs@),
    decreases exprs, 0nat,
{
    let mut i: usize = 0;
    while i < exprs.len()
        invariant
            i <= exprs@.len(),
            scope_stack.wf(),
            forall|j: int| 0 <= j < i ==> expr_resolves(scope_stack@, #[trigger] exprs@[j]),
        decreases exprs@.len() - i,
    {
        if !check_expr(scope_stack, &exprs[i]) {
            return false;
        }
        i = i + 1;
    }
    true
}

fn check_lexpr(scope_stack: &ScopeStack, expr: &ast::Expr) -> (r: bool)
    requires
        scope_stack.wf(),
    ensures
        r == lexpr_resolves(scope_stack@, *expr),
{
    match &expr.kind {
        ast::ExprKind::Identifier(name) => scope_stack.find(name.as_str()).is_some(),
        ast::ExprKind::Subscription(x, i) => check_expr(scope_stack, x) && check_expr(
            scope_stack,
            i,
        ),
        _ => false,
    }
}

/// Whether every statement of a block resolves, declaring its names as
/// building does.
fn check_block(scope_stack: &mut ScopeStack, stmts: &Vec<ast::Statement>) -> (r: bool)
    requires
        old(scope_stack).wf(),
        old(scope_stack)@.current + block_decls(stmts@, stmts@.len()) <= usize::MAX,
    ensures
        final(scope_stack).wf(),
        r == block_resolves(old(scope_stack)@, stmts@),
        r ==> final(scope_stack)@ == block_scope(old(scope_stack)@, stmts@, stmts@.len()),
        r ==> final(scope_stack)@.marks == old(scope_stack)@.marks,
        r ==> final(scope_stack)@.entries.len() >= old(scope_stack)@.entries.len(),
        r ==> final(scope_stack)@.entries.take(old(scope_stack)@.entries.len() as int)
            == old(scope_stack)@.entries,
        r ==> final(scope_stack)@.current == old(scope_stack)@.current + block_decls(
            stmts@,
            stmts@.len(),
        ),
    decreases stmts,
{
    let ghost sc0 = scope_stack@;
    let mut i: usize = 0;
    assert(sc0.entries.take(sc0.entries.len() as int) =~= sc0.entries);
    while i < stmts.len()
        invariant
            i <= stmts@.len(),
            scope_stack.wf(),
            sc0 == old(scope_stack)@,
            scope_stack@ == block_scope(sc0, stmts@, i as nat),
            scope_stack@.marks == sc0.marks,
            scope_stack@.entries.len() >= sc0.entries.len(),
            scope_stack@.entries.take(sc0.entries.len() as int) == sc0.entries,
            scope_stack@.current == sc0.current + block_decls(stmts@, i as nat),
            sc0.current + block_decls(stmts@, stmts@.len()) <= usize::MAX,
            forall|j: int|
                0 <= j < i ==> stmt_resolves(
                    block_scope(sc0, stmts@, j as nat),
                    #[trigger] stmts@[j],
                ),
        decreases stmts@.len() - i,
    {
        let ghost sc = scope_stack@;
        proof {
            lemma_block_decls_mono(stmts@, (i + 1) as nat, stmts@.len());
            scope_stack.lemma_wf();
            assert(block_decls(stmts@, (i + 1) as nat) == block_decls(stmts@, i as nat) + stmt_decls(
                stmts@[i as int],
            ));
            assert(block_scope(sc0, stmts@, (i + 1) as nat) == stmt_scope(sc, stmts@[i as int]));
        }
        let ok = match &stmts[i] {
            ast::Statement::Return(expr) => check_expr(scope_stack, expr),
            ast::Statement::Expr(expr) => check_expr(scope_stack, expr),
            ast::Statement::Declare(name, expr) => {
                scope_stack.declare(name.as_str());
                check_expr(scope_stack, expr)
            },
            ast::Statement::Assign(lexpr, rexpr) => check_lexpr(scope_stack, lexpr) && check_expr(
                scope_stack,
                rexpr,
            ),
            ast::Statement::If(test, block) | ast::Statement::While(test, block) => {
                if !check_expr(scope_stack, test) {
                    false
                } else {
                    scope_stack.open_scope();
                    if !check_block(scope_stack, block) {
                        false
                    } else {
                        scope_stack.close_scope();
                        proof {
                            assert(scope_stack@.entries =~= sc.entries);
                            assert(scope_stack@.marks =~= sc.marks);
                        }
                        true
                    }
                }
            },
        };
        if !ok {
            proof {
                assert(!stmt_resolves(block_scope(sc0, stmts@, i as nat), stmts@[i as int]));
            }
            return false;
        }
        proof {
            assert(scope_stack@.entries.take(sc0.entries.len() as int) =~= sc0.entries);
        }
        i = i + 1;
    }
    true
}

/// Whether every name of the program resolves where it is used, every
/// assignment target is a variable or an array element, and no syntax-error
/// node is left: what `exec` requires besides `main`.
pub fn programme_names_resolve(programme: &[ast::Function]) -> (r: bool)
    requires
        frames_fit(programme@),
    ensures
        r == programme_resolves(programme@),
{
    let mut k: usize = 0;
    while k < programme.len()
        invariant
            k <= programme@.len(),
            frames_fit(programme@),
            forall|j: int|
                0 <= j < k ==> block_resolves(
                    func_scope(#[trigger] programme@[j]),
                    programme@[j].stmts@,
                ),
        decreases programme@.len() - k,
    {
        assert(programme@[k as int].arguments@.len() + block_decls(
            programme@[k as int].stmts@,
            programme@[k as int].stmts@.len(),
        ) <= usize::MAX);
        let func = &programme[k];
        let mut scope_stack = ScopeStack::new();
        let mut i: usize = 0;
        while i < func.arguments.len()
            invariant
                i <= func.arguments@.len(),
                scope_stack.wf(),
                scope_stack@ == args_scope(func.arguments@, i as nat),
                scope_stack@.current == i,
                func.arguments@.len() + block_decls(func.stmts@, func.stmts@.len()) <= usize::MAX,
            decreases func.arguments@.len() - i,
        {
            scope_stack.declare(func.arguments[i].as_str());
            i = i + 1;
        }
        if !check_block(&mut scope_stack, &func.stmts) {
            return false;
        }
        k = k + 1;
    }
    true
}

} // verus!
