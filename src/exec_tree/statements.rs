//! Executing statements, and building blocks from the syntax tree.

use vstd::prelude::*;

use super::base::{
    exec_block, valid_value, valid_values, FunctionState, Globals, LExpr, Locals, Runtime,
    Statement, Value,
};
use super::error::{result_view, runtime_failure, Abort, RuntimeFailureKind};
use super::expressions::{evaluate, evaluate_to_bool};
use super::base::ScopeStack;
use super::error::StaticAnalysisError;
use super::expressions::{build_expr, build_lexpr, Identifier};
use super::semantics::{
    assign_to, block_ok, evolves, exec_stmt, funcs_wf, lemma_block_ok_mono, lemma_expr_ok_mono,
    lexpr_ok, stmt_ok,
};
use super::building::{
    block_built, block_decls, block_errors, block_scope, lemma_block_decls_mono, stmt_built,
    stmt_decls, stmt_errors, stmt_scope, block_resolves, stmt_resolves,
};
use crate::ast;

verus! {

/// Writes `value` to an assignment target: a frame slot, or an element of an
/// array, which every alias of the array then sees.
fn assign(
    rt: &mut Runtime,
    globals: &Globals,
    fuel: u64,
    locals: &mut Locals,
    target: &LExpr,
    value: Value,
) -> (r: Result<FunctionState, Abort>)
    requires
        old(rt).wf(),
        funcs_wf(globals.functions@),
        lexpr_ok(*target, globals.functions@.len(), old(locals).vars@.len()),
        valid_values(old(locals).vars@, old(rt)@.heap.len()),
        valid_value(value, old(rt)@.heap.len()),
    ensures
        final(rt).wf(),
        evolves(old(rt)@, final(rt)@),
        (final(rt)@, final(locals).vars@, result_view(r)) == assign_to(
            globals.functions@,
            fuel as nat,
            old(rt)@,
            old(locals).vars@,
            *target,
            value,
        ),
        final(locals).vars@.len() == old(locals).vars@.len(),
        valid_values(final(locals).vars@, final(rt)@.heap.len()),
        r matches Ok(FunctionState::Return(v)) ==> valid_value(v, final(rt)@.heap.len()),
    decreases fuel, 1nat, target, 0nat,
{
    match target {
        LExpr::Identifier(id) => {
            locals.vars[id.var_id] = value;
            Ok(FunctionState::NoReturn)
        },
        LExpr::Subscription(array_expr, index_expr) => {
            let index = match super::expressions::evaluate_to_int(rt, globals, fuel, &*locals, index_expr) {
                Ok(n) => n,
                Err(a) => return Err(a),
            };
            match evaluate(rt, globals, fuel, &*locals, array_expr) {
                Err(a) => Err(a),
                Ok(Value::Integer(_)) => Err(
                    runtime_failure(RuntimeFailureKind::ExpectedArrayGotInt, array_expr),
                ),
                Ok(Value::Array(id)) => {
                    if 0 <= index && (index as usize) < rt.heap[id].len() {
                        let ghost old_heap = rt@.heap;
                        rt.heap[id][index as usize] = value;
                        assert(rt@.heap =~= old_heap.update(
                            id as int,
                            old_heap[id as int].update(index as int, value),
                        ));
                        Ok(FunctionState::NoReturn)
                    } else {
                        Err(runtime_failure(RuntimeFailureKind::IndexOutOfBounds, index_expr))
                    }
                },
            }
        },
    }
}

/// Executes one statement.
pub fn do_stmt(
    rt: &mut Runtime,
    globals: &Globals,
    fuel: u64,
    locals: &mut Locals,
    stmt: &Statement,
) -> (r: Result<FunctionState, Abort>)
    requires
        old(rt).wf(),
        funcs_wf(globals.functions@),
        stmt_ok(*stmt, globals.functions@.len(), old(locals).vars@.len()),
        valid_values(old(locals).vars@, old(rt)@.heap.len()),
    ensures
        final(rt).wf(),
        evolves(old(rt)@, final(rt)@),
        (final(rt)@, final(locals).vars@, result_view(r)) == exec_stmt(
            globals.functions@,
            fuel as nat,
            old(rt)@,
            old(locals).vars@,
            *stmt,
        ),
        final(locals).vars@.len() == old(locals).vars@.len(),
        valid_values(final(locals).vars@, final(rt)@.heap.len()),
        r matches Ok(FunctionState::Return(v)) ==> valid_value(v, final(rt)@.heap.len()),
    decreases fuel, 2nat, stmt, 0nat,
{
    match stmt {
        Statement::Return(expr) => match evaluate(rt, globals, fuel, &*locals, expr) {
            Ok(v) => Ok(FunctionState::Return(v)),
            Err(a) => Err(a),
        },
        Statement::Expr(expr) => match evaluate(rt, globals, fuel, &*locals, expr) {
            Ok(_) => Ok(FunctionState::NoReturn),
            Err(a) => Err(a),
        },
        Statement::Assign(target, expr) => match evaluate(rt, globals, fuel, &*locals, expr) {
            Ok(v) => assign(rt, globals, fuel, locals, target, v),
            Err(a) => Err(a),
        },
        Statement::If(test, block) => match evaluate_to_bool(rt, globals, fuel, &*locals, test) {
            Err(a) => Err(a),
            Ok(true) => exec_block(rt, globals, fuel, locals, block),
            Ok(false) => Ok(FunctionState::NoReturn),
        },
        Statement::While(test, block) => {
            let mut f = fuel;
            loop
                invariant
                    f <= fuel,
                    *stmt == Statement::While(*test, *block),
                    rt.wf(),
                    funcs_wf(globals.functions@),
                    stmt_ok(*stmt, globals.functions@.len(), locals.vars@.len()),
                    valid_values(locals.vars@, rt@.heap.len()),
                    locals.vars@.len() == old(locals).vars@.len(),
                    evolves(old(rt)@, rt@),
                    exec_stmt(globals.functions@, fuel as nat, old(rt)@, old(locals).vars@, *stmt)
                        == exec_stmt(globals.functions@, f as nat, rt@, locals.vars@, *stmt),
                decreases f,
            {
                if f == 0 {
                    return Err(Abort::Failure(RuntimeFailureKind::EvaluationLimitReached, Vec::new()));
                }
                f = f - 1;
                match evaluate_to_bool(rt, globals, f, &*locals, test) {
                    Err(a) => return Err(a),
                    Ok(false) => return Ok(FunctionState::NoReturn),
                    Ok(true) => {},
                }
                match exec_block(rt, globals, f, locals, block) {
                    Ok(FunctionState::NoReturn) => {},
                    other => return other,
                }
            }
        },
    }
}

/// Builds a block in the current scope, collecting every error. Declarations
/// take fresh slots; a nested block's names go out of scope when it ends, its
/// slots stay taken.
pub fn build_block(globals: &Globals, scope_stack: &mut ScopeStack, stmts: &Vec<ast::Statement>) -> (r: (
    Vec<Statement>,
    Vec<StaticAnalysisError>,
))
    requires
        old(scope_stack).wf(),
        old(scope_stack)@.current + block_decls(stmts@, stmts@.len()) <= usize::MAX,
        block_resolves(old(scope_stack)@, stmts@),
    ensures
        final(scope_stack).wf(),
        final(scope_stack)@ == block_scope(old(scope_stack)@, stmts@, stmts@.len()),
        final(scope_stack)@.marks == old(scope_stack)@.marks,
        final(scope_stack)@.entries.len() >= old(scope_stack)@.entries.len(),
        final(scope_stack)@.entries.take(old(scope_stack)@.entries.len() as int)
            == old(scope_stack)@.entries,
        final(scope_stack)@.current == old(scope_stack)@.current + block_decls(
            stmts@,
            stmts@.len(),
        ),
        block_built(globals.names_seq(), old(scope_stack)@, stmts@, r.0@),
        r.1@ == block_errors(globals.names_seq(), old(scope_stack)@, stmts@, stmts@.len()),
        r.1@.len() == 0 ==> block_ok(r.0@, globals.names@.len(), final(scope_stack)@.current),
    decreases stmts,
{
    let ghost sc0 = scope_stack@;
    let ghost names = globals.names_seq();
    let ghost n = globals.names@.len();
    let mut rv: Vec<Statement> = Vec::new();
    let mut failures: Vec<StaticAnalysisError> = Vec::new();
    let mut i: usize = 0;
    assert(sc0.entries.take(sc0.entries.len() as int) =~= sc0.entries);
    while i < stmts.len()
        invariant
            i <= stmts@.len(),
            scope_stack.wf(),
            scope_stack@ == block_scope(sc0, stmts@, i as nat),
            scope_stack@.marks == sc0.marks,
            scope_stack@.entries.len() >= sc0.entries.len(),
            scope_stack@.entries.take(sc0.entries.len() as int) == sc0.entries,
            scope_stack@.current == sc0.current + block_decls(stmts@, i as nat),
            sc0.current + block_decls(stmts@, stmts@.len()) <= usize::MAX,
            block_resolves(sc0, stmts@),
            names == globals.names_seq(),
            n == globals.names@.len(),
            rv@.len() == i,
            forall|j: int|
                0 <= j < i ==> stmt_built(
                    names,
                    block_scope(sc0, stmts@, j as nat),
                    #[trigger] stmts@[j],
                    rv@[j],
                ),
            failures@ == block_errors(names, sc0, stmts@, i as nat),
            failures@.len() == 0 ==> block_ok(rv@, n, scope_stack@.current),
        decreases stmts@.len() - i,
    {
        let ghost sc = scope_stack@;
        let ghost prev_failures = failures@;
        proof {
            assert(stmt_resolves(sc, stmts@[i as int]));
            lemma_block_decls_mono(stmts@, (i + 1) as nat, stmts@.len());
            scope_stack.lemma_wf();
            assert(block_decls(stmts@, (i + 1) as nat) == block_decls(stmts@, i as nat) + stmt_decls(
                stmts@[i as int],
            ));
            assert(block_scope(sc0, stmts@, (i + 1) as nat) == stmt_scope(sc, stmts@[i as int]));
            assert(block_errors(names, sc0, stmts@, (i + 1) as nat) == prev_failures + stmt_errors(
                names,
                sc,
                stmts@[i as int],
            ));
        }
        let stmt = match &stmts[i] {
            ast::Statement::Return(expr) => {
                let (e, mut f) = build_expr(globals, scope_stack, expr);
                failures.append(&mut f);
                Statement::Return(e)
            },
            ast::Statement::Expr(expr) => {
                let (e, mut f) = build_expr(globals, scope_stack, expr);
                failures.append(&mut f);
                Statement::Expr(e)
            },
            ast::Statement::Declare(name, expr) => {
                let var_id = scope_stack.declare(name.as_str());
                let (e, mut f) = build_expr(globals, scope_stack, expr);
                failures.append(&mut f);
                Statement::Assign(LExpr::Identifier(Identifier::new(var_id)), e)
            },
            ast::Statement::Assign(lexpr, rexpr) => {
                let (target, mut fl) = build_lexpr(globals, scope_stack, lexpr);
                let (e, mut fe) = build_expr(globals, scope_stack, rexpr);
                failures.append(&mut fl);
                failures.append(&mut fe);
                Statement::Assign(target, e)
            },
            ast::Statement::If(test, block) => {
                let (e, mut fe) = build_expr(globals, scope_stack, test);
                scope_stack.open_scope();
                let (b, mut fb) = build_block(globals, scope_stack, block);
                scope_stack.close_scope();
                proof {
                    assert(scope_stack@.entries =~= sc.entries);
                    assert(scope_stack@.marks =~= sc.marks);
                    if fe@.len() == 0 {
                        lemma_expr_ok_mono(e, n, sc.current, scope_stack@.current);
                    }
                }
                failures.append(&mut fe);
                failures.append(&mut fb);
                Statement::If(e, b)
            },
            ast::Statement::While(test, block) => {
                let (e, mut fe) = build_expr(globals, scope_stack, test);
                scope_stack.open_scope();
                let (b, mut fb) = build_block(globals, scope_stack, block);
                scope_stack.close_scope();
                proof {
                    assert(scope_stack@.entries =~= sc.entries);
                    assert(scope_stack@.marks =~= sc.marks);
                    if fe@.len() == 0 {
                        lemma_expr_ok_mono(e, n, sc.current, scope_stack@.current);
                    }
                }
                failures.append(&mut fe);
                failures.append(&mut fb);
                Statement::While(e, b)
            },
        };
        proof {
            scope_stack.lemma_wf();
            assert(scope_stack@.entries.take(sc0.entries.len() as int) =~= sc0.entries);
            if failures@.len() == 0 {
                assert(prev_failures.len() == 0);
                lemma_block_ok_mono(rv@, n, sc.current, scope_stack@.current);
            }
        }
        rv.push(stmt);
        i = i + 1;
        proof {
            if failures@.len() == 0 {
                assert(stmt_ok(rv@[i - 1], n, scope_stack@.current));
                assert(block_ok(rv@, n, scope_stack@.current));
            }
        }
    }
    (rv, failures)
}

} // verus!
