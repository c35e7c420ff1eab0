//! Properties of the language that hold of every program and every state.

use vstd::prelude::*;

use super::base::{
    last_index_of, Callable, Expr, ExprNode, FunctionState, LExpr, PlatformFunction,
    RunState, ScopeView, Value,
};
use super::expressions::Identifier;
use super::error::{AbortView, ExecError, StaticAnalysisError};
use super::main::{programme_names, reports};
use super::semantics::{
    eval_args, assign_to, binary_int, eval_expr, eval_int, lemma_eval_args_grows, platform_call, push_site,
    short_circuits, truth,
};
use super::building::{expr_errors, list_errors};
use crate::ast::{self, BinaryOpCode};

verus! {

/// An array made by `new(n)` has `n` elements, all `0`, and is a new array.
pub proof fn law_new_array_is_zeroed(st: RunState, args: Seq<Value>, n: i32)
    requires
        args.len() > 0,
        args[0] == Value::Integer(n),
        n >= 0,
    ensures
        ({
            let (st2, r) = platform_call(PlatformFunction::New, st, args);
            &&& r == Ok::<Value, AbortView>(Value::Array(st.heap.len() as usize))
            &&& st2.heap.len() == st.heap.len() + 1
            &&& st2.heap[st.heap.len() as int].len() == n
            &&& forall|i: int| 0 <= i < n ==> st2.heap[st.heap.len() as int][i] == Value::Integer(0)
        }),
{
}

/// Writing an element through one variable is seen through every other
/// variable that holds the same array.
pub proof fn law_aliasing(
    funcs: Seq<Callable>,
    fuel: nat,
    st: RunState,
    locals: Seq<Value>,
    target: LExpr,
    v: Value,
    reader: Expr,
    a: Identifier,
    b: Identifier,
    k: i32,
    id: usize,
)
    requires
        target is Subscription,
        target->Subscription_0.node == ExprNode::Identifier(b),
        target->Subscription_1.node == ExprNode::IntegerLiteral(k),
        reader.node is Subscription,
        reader.node->Subscription_0.node == ExprNode::Identifier(a),
        reader.node->Subscription_1.node == ExprNode::IntegerLiteral(k),
        a.var_id < locals.len(),
        b.var_id < locals.len(),
        locals[a.var_id as int] == Value::Array(id),
        locals[b.var_id as int] == Value::Array(id),
        id < st.heap.len(),
        0 <= k < st.heap[id as int].len(),
    ensures
        ({
            let (st2, l2, r) = assign_to(funcs, fuel, st, locals, target, v);
            &&& r == Ok::<FunctionState, AbortView>(FunctionState::NoReturn)
            &&& eval_expr(funcs, fuel, st2, l2, reader).1 == Ok::<Value, AbortView>(v)
            &&& l2 == locals
            &&& st2.heap.len() == st.heap.len()
            &&& st2.heap[id as int] == st.heap[id as int].update(k as int, v)
            &&& forall|j: int| 0 <= j < st.heap.len() && j != id ==> st2.heap[j] == st.heap[j]
        }),
{
    let ae = *target->Subscription_0;
    let ie = *target->Subscription_1;
    let re = *reader.node->Subscription_0;
    let ri = *reader.node->Subscription_1;
    lemma_eval_literal(funcs, fuel, st, locals, ie, k);
    lemma_eval_identifier(funcs, fuel, st, locals, ae, b);
    let st2 = RunState {
        heap: st.heap.update(id as int, st.heap[id as int].update(k as int, v)),
        ..st
    };
    lemma_assign_element(funcs, fuel, st, locals, target, v, k, id);
    lemma_eval_literal(funcs, fuel, st2, locals, ri, k);
    lemma_eval_identifier(funcs, fuel, st2, locals, re, a);
    lemma_read_element(funcs, fuel, st2, locals, reader, k, id);
    assert(st2.heap[id as int][k as int] == v);
}

proof fn lemma_eval_literal(funcs: Seq<Callable>, fuel: nat, st: RunState, locals: Seq<Value>, e: Expr, k: i32)
    requires
        e.node == ExprNode::IntegerLiteral(k),
    ensures
        eval_expr(funcs, fuel, st, locals, e) == (st, Ok::<Value, AbortView>(Value::Integer(k))),
        eval_int(funcs, fuel, st, locals, e) == (st, Ok::<i32, AbortView>(k)),
{
}

proof fn lemma_eval_identifier(
    funcs: Seq<Callable>,
    fuel: nat,
    st: RunState,
    locals: Seq<Value>,
    e: Expr,
    x: Identifier,
)
    requires
        e.node == ExprNode::Identifier(x),
    ensures
        eval_expr(funcs, fuel, st, locals, e) == (st, Ok::<Value, AbortView>(locals[x.var_id as int])),
{
}

proof fn lemma_assign_element(
    funcs: Seq<Callable>,
    fuel: nat,
    st: RunState,
    locals: Seq<Value>,
    target: LExpr,
    v: Value,
    k: i32,
    id: usize,
)
    requires
        target is Subscription,
        eval_int(funcs, fuel, st, locals, *target->Subscription_1) == (st, Ok::<i32, AbortView>(k)),
        eval_expr(funcs, fuel, st, locals, *target->Subscription_0) == (
            st,
            Ok::<Value, AbortView>(Value::Array(id)),
        ),
        id < st.heap.len(),
        0 <= k < st.heap[id as int].len(),
    ensures
        assign_to(funcs, fuel, st, locals, target, v) == (
            RunState { heap: st.heap.update(id as int, st.heap[id as int].update(k as int, v)), ..st },
            locals,
            Ok::<FunctionState, AbortView>(FunctionState::NoReturn),
        ),
{
}

proof fn lemma_read_element(
    funcs: Seq<Callable>,
    fuel: nat,
    st: RunState,
    locals: Seq<Value>,
    e: Expr,
    k: i32,
    id: usize,
)
    requires
        e.node is Subscription,
        eval_int(funcs, fuel, st, locals, *e.node->Subscription_1) == (st, Ok::<i32, AbortView>(k)),
        eval_expr(funcs, fuel, st, locals, *e.node->Subscription_0) == (
            st,
            Ok::<Value, AbortView>(Value::Array(id)),
        ),
        id < st.heap.len(),
        0 <= k < st.heap[id as int].len(),
    ensures
        eval_expr(funcs, fuel, st, locals, e) == (st, Ok::<Value, AbortView>(st.heap[id as int][k as int])),
{
}

/// Each evaluation of a string literal makes a new array: two evaluations in
/// a row give two different handles, and the second leaves the first array
/// as it was.
pub proof fn law_string_literal_fresh(funcs: Seq<Callable>, fuel: nat, st: RunState, locals: Seq<Value>, e: Expr)
    requires
        e.node is StringLiteral,
    ensures
        ({
            let (st1, r1) = eval_expr(funcs, fuel, st, locals, e);
            let (st2, r2) = eval_expr(funcs, fuel, st1, locals, e);
            &&& r1 == Ok::<Value, AbortView>(Value::Array(st.heap.len() as usize))
            &&& r2 == Ok::<Value, AbortView>(Value::Array(st1.heap.len() as usize))
            &&& st1.heap.len() == st.heap.len() + 1
            &&& st2.heap[st.heap.len() as int] == st1.heap[st.heap.len() as int]
        }),
{
}

/// Each evaluation of an array literal makes a new array, after its
/// elements: while the heap's length fits a `usize`, its handle names no
/// array that existed before, and two evaluations in a row give two different
/// arrays.
pub proof fn law_array_literal_fresh(funcs: Seq<Callable>, fuel: nat, st: RunState, locals: Seq<Value>, e: Expr)
    requires
        e.node is ArrayLiteral,
    ensures
        ({
            let (st1, r1) = eval_expr(funcs, fuel, st, locals, e);
            let (st2, r2) = eval_expr(funcs, fuel, st1, locals, e);
            &&& (r1 is Ok && st1.heap.len() <= usize::MAX) ==> r1->Ok_0 is Array && st.heap.len()
                <= r1->Ok_0->Array_0 && r1->Ok_0->Array_0 + 1 == st1.heap.len()
            &&& (r1 is Ok && r2 is Ok && st2.heap.len() <= usize::MAX) ==> r1->Ok_0->Array_0
                < r2->Ok_0->Array_0
        }),
{
    let es = e.node->ArrayLiteral_0;
    lemma_eval_args_grows(funcs, fuel, st, locals, es@, 0, seq![]);
    let (sa, ra) = eval_args(funcs, fuel, st, locals, es@, 0, seq![]);
    let (st1, r1) = eval_expr(funcs, fuel, st, locals, e);
    if ra is Ok {
        assert(st1.heap.len() == sa.heap.len() + 1);
        assert(r1 == Ok::<Value, AbortView>(Value::Array(sa.heap.len() as usize)));
    }
    lemma_eval_args_grows(funcs, fuel, st1, locals, es@, 0, seq![]);
    let (sb, rb) = eval_args(funcs, fuel, st1, locals, es@, 0, seq![]);
    let (st2, r2) = eval_expr(funcs, fuel, st1, locals, e);
    if rb is Ok {
        assert(st2.heap.len() == sb.heap.len() + 1);
        assert(r2 == Ok::<Value, AbortView>(Value::Array(sb.heap.len() as usize)));
    }
}

/// `or` and `and` evaluate their right operand only when the left one does
/// not decide the result; the result is `0` or `1`.
pub proof fn law_short_circuit(funcs: Seq<Callable>, fuel: nat, st: RunState, locals: Seq<Value>, e: Expr)
    requires
        e.node is Binary,
        e.node->Binary_0 == BinaryOpCode::BoolOr || e.node->Binary_0 == BinaryOpCode::BoolAnd,
    ensures
        ({
            let op = e.node->Binary_0;
            let (st1, r1) = eval_int(funcs, fuel, st, locals, *e.node->Binary_1);
            match r1 {
                Ok(a) => if short_circuits(op, a) {
                    eval_expr(funcs, fuel, st, locals, e) == (
                        st1,
                        Ok::<Value, AbortView>(Value::Integer(truth(a))),
                    )
                } else {
                    let (st2, r2) = eval_int(funcs, fuel, st1, locals, *e.node->Binary_2);
                    eval_expr(funcs, fuel, st, locals, e) == match r2 {
                        Ok(b) => (st2, Ok::<Value, AbortView>(Value::Integer(truth(b)))),
                        Err(x) => (st2, Err(x)),
                    }
                },
                Err(x) => eval_expr(funcs, fuel, st, locals, e) == (st1, Err::<Value, AbortView>(x)),
            }
        }),
{
}

/// Comparisons always succeed and yield `0` or `1`.
pub proof fn law_comparison_is_boolean(op: BinaryOpCode, l: i32, r: i32)
    requires
        op == BinaryOpCode::LessThan || op == BinaryOpCode::MoreThan || op
            == BinaryOpCode::LessThanOrEqual || op == BinaryOpCode::MoreThanOrEqual || op
            == BinaryOpCode::Equal || op == BinaryOpCode::NotEqual,
    ensures
        binary_int(op, l, r) matches Some(v) && (v == 0 || v == 1),
{
}

/// A comparison node yields exactly `0` or `1` once both operands yield
/// integers: its left operand first, then its right one.
pub proof fn law_comparison_node_is_boolean(
    funcs: Seq<Callable>,
    fuel: nat,
    st: RunState,
    locals: Seq<Value>,
    e: Expr,
)
    requires
        e.node is Binary,
        ({
            let op = e.node->Binary_0;
            op == BinaryOpCode::LessThan || op == BinaryOpCode::MoreThan || op
                == BinaryOpCode::LessThanOrEqual || op == BinaryOpCode::MoreThanOrEqual || op
                == BinaryOpCode::Equal || op == BinaryOpCode::NotEqual
        }),
    ensures
        ({
            let op = e.node->Binary_0;
            let (st1, r1) = eval_int(funcs, fuel, st, locals, *e.node->Binary_1);
            let (st2, r2) = eval_int(funcs, fuel, st1, locals, *e.node->Binary_2);
            (r1 is Ok && r2 is Ok) ==> eval_expr(funcs, fuel, st, locals, e) == (
                st2,
                Ok::<Value, AbortView>(Value::Integer(binary_int(op, r1->Ok_0, r2->Ok_0)->0)),
            ) && (binary_int(op, r1->Ok_0, r2->Ok_0)->0 == 0 || binary_int(
                op,
                r1->Ok_0,
                r2->Ok_0,
            )->0 == 1)
        }),
{
}

/// A call to an undeclared function is reported once, with the call's span,
/// after whatever its arguments report.
pub proof fn law_unknown_call_reported(names: Seq<Seq<char>>, sc: ScopeView, a: ast::Expr)
    requires
        a.kind is Call,
        last_index_of(names, a.kind->Call_0@) is None,
    ensures
        expr_errors(names, sc, a) == list_errors(names, sc, a.kind->Call_1@, a.kind->Call_1@.len())
            + seq![StaticAnalysisError::CallUnknownFunction(a.kind->Call_0, a.start, a.end)],
{
}

/// `len` gives `-1` for an integer and the length for an array.
pub proof fn law_len(st: RunState, args: Seq<Value>)
    requires
        args.len() > 0,
    ensures
        args[0] is Integer ==> platform_call(PlatformFunction::Len, st, args) == (
            st,
            Ok::<Value, AbortView>(Value::Integer(-1i32)),
        ),
        args[0] matches Value::Array(id) ==> platform_call(PlatformFunction::Len, st, args) == (
            st,
            Ok::<Value, AbortView>(Value::Integer(st.heap[id as int].len() as i32)),
        ),
{
}

/// `exit(n)` stops the run: no caller gets control back, as a call site lets
/// it through unchanged, and the run ends with status `n`.
pub proof fn law_exit(st: RunState, args: Seq<Value>, n: i32, site: super::base::CodeSite, r: Result<i32, ExecError>)
    requires
        args.len() > 0,
        args[0] == Value::Integer(n),
    ensures
        platform_call(PlatformFunction::Exit, st, args) == (st, Err::<Value, AbortView>(AbortView::Exit(n))),
        push_site(AbortView::Exit(n), site) == AbortView::Exit(n),
        reports(r, Err(AbortView::Exit(n))) <==> r == Ok::<i32, ExecError>(n),
{
}

pub proof fn lemma_last_index_of_latest(names: Seq<Seq<char>>, name: Seq<char>, k: int)
    requires
        0 <= k < names.len(),
        names[k] == name,
    ensures
        last_index_of(names, name) matches Some(i) && k <= i < names.len() && names[i] == name,
    decreases names.len(),
{
    if names.last() != name {
        lemma_last_index_of_latest(names.drop_last(), name, k);
    }
}

/// Every function of a program can be called from every function body,
/// whatever their order: a name resolves to the program's latest function of
/// that name, never to a built-in one.
pub proof fn law_forward_references(programme: Seq<ast::Function>, j: int)
    requires
        0 <= j < programme.len(),
    ensures
        last_index_of(programme_names(programme), programme[j].name@) matches Some(id) && 5 + j
            <= id < 5 + programme.len() && programme[id - 5].name@ == programme[j].name@,
{
    let names = programme_names(programme);
    assert(names[5 + j] == programme[j].name@);
    lemma_last_index_of_latest(names, programme[j].name@, 5 + j);
    let id = last_index_of(names, programme[j].name@)->0;
    assert(names[id] == programme[id - 5].name@);
}

/// With pairwise distinct function names, the `i`-th function of the
/// program gets id `5 + i` and every call by its name resolves to it, wherever
/// in the program the call stands.
pub proof fn law_distinct_names_resolve_in_place(programme: Seq<ast::Function>, j: int)
    requires
        0 <= j < programme.len(),
        forall|a: int, b: int|
            0 <= a < programme.len() && 0 <= b < programme.len() && a != b ==> programme[a].name@
                != programme[b].name@,
    ensures
        last_index_of(programme_names(programme), programme[j].name@) == Some(5 + j),
{
    law_forward_references(programme, j);
    let id = last_index_of(programme_names(programme), programme[j].name@)->0;
    assert(programme[id - 5].name@ == programme[j].name@);
}

} // verus!
