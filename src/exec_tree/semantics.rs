//! The meaning of an executable tree, as spec functions.
//!
//! Evaluation is indexed by a budget: a call consumes one unit for the callee's
//! body, and each iteration of a loop consumes one unit. Running out is a
//! failure of its own kind.

use vstd::prelude::*;

use super::base::{
    Callable, CodeSite, Expr, ExprNode, FunctionState, LExpr, PlatformFunction, RunState, Statement,
    Value,
};
use super::error::{AbortView, RuntimeFailureKind};
use crate::ast::{BinaryOpCode, UnaryOpCode};

verus! {

/// The truth value of an integer, as an integer.
pub open spec fn truth(n: i32) -> i32 {
    if n != 0 {
        1
    } else {
        0
    }
}

/// Whether a boolean operator's result is decided by its left operand alone.
pub open spec fn short_circuits(op: BinaryOpCode, l: i32) -> bool {
    (op == BinaryOpCode::BoolOr && l != 0) || (op == BinaryOpCode::BoolAnd && l == 0)
}

/// The value of a binary operator on two integers; `None` where a division or
/// remainder fails.
pub open spec fn binary_int(op: BinaryOpCode, l: i32, r: i32) -> Option<i32> {
    match op {
        BinaryOpCode::Add => Some(l.wrapping_add(r)),
        BinaryOpCode::Sub => Some(l.wrapping_sub(r)),
        BinaryOpCode::Mul => Some(l.wrapping_mul(r)),
        BinaryOpCode::Div => l.checked_div(r),
        BinaryOpCode::Mod => l.checked_rem(r),
        BinaryOpCode::LeftShift => Some(l.wrapping_shl(r as u32)),
        BinaryOpCode::RightShift => Some(l.wrapping_shr(r as u32)),
        BinaryOpCode::BitOr => Some(l | r),
        BinaryOpCode::BitXor => Some(l ^ r),
        BinaryOpCode::BitAnd => Some(l & r),
        BinaryOpCode::LessThan => Some(if l < r { 1 } else { 0 }),
        BinaryOpCode::MoreThan => Some(if l > r { 1 } else { 0 }),
        BinaryOpCode::LessThanOrEqual => Some(if l <= r { 1 } else { 0 }),
        BinaryOpCode::MoreThanOrEqual => Some(if l >= r { 1 } else { 0 }),
        BinaryOpCode::Equal => Some(if l == r { 1 } else { 0 }),
        BinaryOpCode::NotEqual => Some(if l != r { 1 } else { 0 }),
        BinaryOpCode::BoolOr => Some(if l != 0 || r != 0 { 1 } else { 0 }),
        BinaryOpCode::BoolAnd => Some(if l != 0 && r != 0 { 1 } else { 0 }),
    }
}

/// The value of a unary operator on an integer.
pub open spec fn unary_int(op: UnaryOpCode, v: i32) -> i32 {
    match op {
        UnaryOpCode::Neg => 0i32.wrapping_sub(v),
        UnaryOpCode::Plus => v,
        UnaryOpCode::BitNot => !v,
        UnaryOpCode::BoolNot => if v != 0 {
            0
        } else {
            1
        },
    }
}

/// The run-time state only grows its heap and never changes its input.
pub open spec fn evolves(a: RunState, b: RunState) -> bool {
    a.heap.len() <= b.heap.len() && a.input == b.input
}

/// An integer result read as a truth value.
pub open spec fn as_bool(r: Result<i32, AbortView>) -> Result<bool, AbortView> {
    match r {
        Ok(n) => Ok(n != 0),
        Err(a) => Err(a),
    }
}

pub open spec fn failure(kind: RuntimeFailureKind, trace: Seq<CodeSite>) -> AbortView {
    AbortView::Failure(kind, trace)
}

/// A failure as it leaves a call: the call's site joins the trace.
pub open spec fn push_site(a: AbortView, site: CodeSite) -> AbortView {
    match a {
        AbortView::Failure(k, trace) => AbortView::Failure(k, trace.push(site)),
        AbortView::Exit(n) => AbortView::Exit(n),
    }
}

/// Places a new array on the heap; its handle is the heap's old length.
pub open spec fn allocate(st: RunState, vs: Seq<Value>) -> (RunState, Result<Value, AbortView>) {
    (RunState { heap: st.heap.push(vs), ..st }, Ok(Value::Array(st.heap.len() as usize)))
}

/// `n` zeros.
pub open spec fn zeros(n: nat) -> Seq<Value> {
    Seq::new(n, |i: int| Value::Integer(0))
}

/// A callee's frame: the arguments, padded with zeros to the frame size.
pub open spec fn new_frame(args: Seq<Value>, max_locals: nat) -> Seq<Value> {
    if args.len() >= max_locals {
        args
    } else {
        args + zeros((max_locals - args.len()) as nat)
    }
}

/// What a call yields once its body has finished.
pub open spec fn returned(r: Result<FunctionState, AbortView>) -> Result<Value, AbortView> {
    match r {
        Ok(FunctionState::Return(v)) => Ok(v),
        Ok(FunctionState::NoReturn) => Ok(Value::Integer(0)),
        Err(a) => Err(a),
    }
}

/// A built-in function applied to its arguments.
pub open spec fn platform_call(p: PlatformFunction, st: RunState, args: Seq<Value>) -> (
    RunState,
    Result<Value, AbortView>,
) {
    if p == PlatformFunction::Getc {
        if st.input_pos < st.input.len() {
            (
                RunState { input_pos: st.input_pos + 1, ..st },
                Ok(Value::Integer(st.input[st.input_pos as int] as i32)),
            )
        } else {
            (st, Ok(Value::Integer(-1i32)))
        }
    } else if args.len() == 0 {
        (st, Err(failure(RuntimeFailureKind::MissingArgument, seq![])))
    } else {
        match (p, args[0]) {
            (PlatformFunction::Len, Value::Integer(_)) => (st, Ok(Value::Integer(-1i32))),
            (PlatformFunction::Len, Value::Array(id)) => (
                st,
                Ok(Value::Integer(st.heap[id as int].len() as i32)),
            ),
            (_, Value::Array(_)) => (
                st,
                Err(failure(RuntimeFailureKind::ExpectedIntGotArray, seq![])),
            ),
            (PlatformFunction::New, Value::Integer(n)) => if n < 0 {
                (st, Err(failure(RuntimeFailureKind::NegativeArrayLength, seq![])))
            } else {
                allocate(st, zeros(n as nat))
            },
            (PlatformFunction::Putc, Value::Integer(c)) => (
                RunState { output: st.output.push(c as u8), ..st },
                Ok(Value::Integer(0)),
            ),
            (PlatformFunction::Exit, Value::Integer(n)) => (st, Err(AbortView::Exit(n))),
            (PlatformFunction::Getc, Value::Integer(_)) => (st, Ok(Value::Integer(-1i32))),
        }
    }
}

/// Evaluates an expression.
pub open spec fn eval_expr(
    funcs: Seq<Callable>,
    fuel: nat,
    st: RunState,
    locals: Seq<Value>,
    e: Expr,
) -> (RunState, Result<Value, AbortView>)
    decreases fuel, 0nat, e, 0nat,
{
    match e.node {
        ExprNode::BadExpr => (st, Ok(Value::Integer(0))),
        ExprNode::IntegerLiteral(n) => (st, Ok(Value::Integer(n))),
        ExprNode::StringLiteral(codes) => allocate(
            st,
            Seq::new(codes@.len(), |i: int| Value::Integer(codes@[i])),
        ),
        ExprNode::ArrayLiteral(es) => {
            let (st1, r) = eval_args(funcs, fuel, st, locals, es@, 0, seq![]);
            match r {
                Ok(vs) => allocate(st1, vs),
                Err(a) => (st1, Err(a)),
            }
        },
        ExprNode::Identifier(id) => (st, Ok(locals[id.var_id as int])),
        ExprNode::Binary(op, l, r) => {
            let (st1, r1) = eval_int(funcs, fuel, st, locals, *l);
            match r1 {
                Err(a) => (st1, Err(a)),
                Ok(a) => if short_circuits(op, a) {
                    (st1, Ok(Value::Integer(truth(a))))
                } else {
                    let (st2, r2) = eval_int(funcs, fuel, st1, locals, *r);
                    match r2 {
                        Err(x) => (st2, Err(x)),
                        Ok(b) => match binary_int(op, a, b) {
                            Some(v) => (st2, Ok(Value::Integer(v))),
                            None => (
                                st2,
                                Err(failure(RuntimeFailureKind::InvalidDivision, seq![e.site])),
                            ),
                        },
                    }
                },
            }
        },
        ExprNode::Unary(op, x) => {
            let (st1, r) = eval_int(funcs, fuel, st, locals, *x);
            match r {
                Err(a) => (st1, Err(a)),
                Ok(v) => (st1, Ok(Value::Integer(unary_int(op, v)))),
            }
        },
        ExprNode::Call(fid, args) => {
            let (st1, r) = eval_args(funcs, fuel, st, locals, args@, 0, seq![]);
            match r {
                Err(a) => (st1, Err(push_site(a, e.site))),
                Ok(vals) => {
                    let (st2, r2) = if fuel == 0 {
                        (st1, Err(failure(RuntimeFailureKind::EvaluationLimitReached, seq![])))
                    } else {
                        call_function(funcs, (fuel - 1) as nat, st1, fid.idx as int, vals)
                    };
                    match r2 {
                        Ok(v) => (st2, Ok(v)),
                        Err(a) => (st2, Err(push_site(a, e.site))),
                    }
                },
            }
        },
        ExprNode::Subscription(a, i) => {
            let (st1, ri) = eval_int(funcs, fuel, st, locals, *i);
            match ri {
                Err(x) => (st1, Err(x)),
                Ok(idx) => {
                    let (st2, ra) = eval_expr(funcs, fuel, st1, locals, *a);
                    match ra {
                        Err(x) => (st2, Err(x)),
                        Ok(Value::Integer(_)) => (
                            st2,
                            Err(failure(RuntimeFailureKind::ExpectedArrayGotInt, seq![a.site])),
                        ),
                        Ok(Value::Array(id)) => if id < st2.heap.len() && 0 <= idx < st2.heap[id as int].len() {
                            (st2, Ok(st2.heap[id as int][idx as int]))
                        } else {
                            (st2, Err(failure(RuntimeFailureKind::IndexOutOfBounds, seq![i.site])))
                        },
                    }
                },
            }
        },
    }
}

/// Evaluates an expression that must yield an integer.
pub open spec fn eval_int(
    funcs: Seq<Callable>,
    fuel: nat,
    st: RunState,
    locals: Seq<Value>,
    e: Expr,
) -> (RunState, Result<i32, AbortView>)
    decreases fuel, 0nat, e, 1nat,
{
    let (st1, r) = eval_expr(funcs, fuel, st, locals, e);
    match r {
        Err(a) => (st1, Err(a)),
        Ok(Value::Integer(n)) => (st1, Ok(n)),
        Ok(Value::Array(_)) => (
            st1,
            Err(failure(RuntimeFailureKind::ExpectedIntGotArray, seq![e.site])),
        ),
    }
}

/// Evaluates `es[i..]` left to right, appending the values to `acc`.
pub open spec fn eval_args(
    funcs: Seq<Callable>,
    fuel: nat,
    st: RunState,
    locals: Seq<Value>,
    es: Seq<Expr>,
    i: nat,
    acc: Seq<Value>,
) -> (RunState, Result<Seq<Value>, AbortView>)
    decreases fuel, 0nat, es, es.len() - i,
{
    if i >= es.len() {
        (st, Ok(acc))
    } else {
        let (st1, r) = eval_expr(funcs, fuel, st, locals, es[i as int]);
        match r {
            Err(a) => (st1, Err(a)),
            Ok(v) => eval_args(funcs, fuel, st1, locals, es, i + 1, acc.push(v)),
        }
    }
}

/// Calls function `fid` with the argument values `args`.
pub open spec fn call_function(
    funcs: Seq<Callable>,
    fuel: nat,
    st: RunState,
    fid: int,
    args: Seq<Value>,
) -> (RunState, Result<Value, AbortView>)
    decreases fuel, 3nat,
{
    match funcs[fid] {
        Callable::Platform(p) => platform_call(p, st, args),
        Callable::StarLang(f) => {
            let frame = new_frame(args, f.max_locals as nat);
            let (st1, _l, r) = run_block(funcs, fuel, st, frame, f.stmts@, 0);
            (st1, returned(r))
        },
    }
}

/// Writes `v` to an assignment target.
pub open spec fn assign_to(
    funcs: Seq<Callable>,
    fuel: nat,
    st: RunState,
    locals: Seq<Value>,
    target: LExpr,
    v: Value,
) -> (RunState, Seq<Value>, Result<FunctionState, AbortView>)
    decreases fuel, 1nat, target, 0nat,
{
    match target {
        LExpr::Identifier(id) => (
            st,
            locals.update(id.var_id as int, v),
            Ok(FunctionState::NoReturn),
        ),
        LExpr::Subscription(a, i) => {
            let (st1, ri) = eval_int(funcs, fuel, st, locals, *i);
            match ri {
                Err(x) => (st1, locals, Err(x)),
                Ok(idx) => {
                    let (st2, ra) = eval_expr(funcs, fuel, st1, locals, *a);
                    match ra {
                        Err(x) => (st2, locals, Err(x)),
                        Ok(Value::Integer(_)) => (
                            st2,
                            locals,
                            Err(failure(RuntimeFailureKind::ExpectedArrayGotInt, seq![a.site])),
                        ),
                        Ok(Value::Array(id)) => if id < st2.heap.len() && 0 <= idx < st2.heap[id as int].len() {
                            (
                                RunState {
                                    heap: st2.heap.update(
                                        id as int,
                                        st2.heap[id as int].update(idx as int, v),
                                    ),
                                    ..st2
                                },
                                locals,
                                Ok(FunctionState::NoReturn),
                            )
                        } else {
                            (
                                st2,
                                locals,
                                Err(failure(RuntimeFailureKind::IndexOutOfBounds, seq![i.site])),
                            )
                        },
                    }
                },
            }
        },
    }
}

/// Executes a statement.
pub open spec fn exec_stmt(
    funcs: Seq<Callable>,
    fuel: nat,
    st: RunState,
    locals: Seq<Value>,
    s: Statement,
) -> (RunState, Seq<Value>, Result<FunctionState, AbortView>)
    decreases fuel, 2nat, s, 0nat,
{
    match s {
        Statement::Return(e) => {
            let (st1, r) = eval_expr(funcs, fuel, st, locals, e);
            match r {
                Ok(v) => (st1, locals, Ok(FunctionState::Return(v))),
                Err(a) => (st1, locals, Err(a)),
            }
        },
        Statement::Expr(e) => {
            let (st1, r) = eval_expr(funcs, fuel, st, locals, e);
            match r {
                Ok(_) => (st1, locals, Ok(FunctionState::NoReturn)),
                Err(a) => (st1, locals, Err(a)),
            }
        },
        Statement::Assign(target, e) => {
            let (st1, r) = eval_expr(funcs, fuel, st, locals, e);
            match r {
                Ok(v) => assign_to(funcs, fuel, st1, locals, target, v),
                Err(a) => (st1, locals, Err(a)),
            }
        },
        Statement::If(c, b) => {
            let (st1, r) = eval_int(funcs, fuel, st, locals, c);
            match r {
                Err(a) => (st1, locals, Err(a)),
                Ok(n) => if n != 0 {
                    run_block(funcs, fuel, st1, locals, b@, 0)
                } else {
                    (st1, locals, Ok(FunctionState::NoReturn))
                },
            }
        },
        Statement::While(c, b) => if fuel == 0 {
            (st, locals, Err(failure(RuntimeFailureKind::EvaluationLimitReached, seq![])))
        } else {
            let f = (fuel - 1) as nat;
            let (st1, r) = eval_int(funcs, f, st, locals, c);
            match r {
                Err(a) => (st1, locals, Err(a)),
                Ok(n) => if n == 0 {
                    (st1, locals, Ok(FunctionState::NoReturn))
                } else {
                    let (st2, l2, r2) = run_block(funcs, f, st1, locals, b@, 0);
                    match r2 {
                        Ok(FunctionState::NoReturn) => exec_stmt(funcs, f, st2, l2, s),
                        _ => (st2, l2, r2),
                    }
                },
            }
        },
    }
}

/// Executes `ss[i..]` until one of them returns or fails.
pub open spec fn run_block(
    funcs: Seq<Callable>,
    fuel: nat,
    st: RunState,
    locals: Seq<Value>,
    ss: Seq<Statement>,
    i: nat,
) -> (RunState, Seq<Value>, Result<FunctionState, AbortView>)
    decreases fuel, 2nat, ss, ss.len() - i,
{
    if i >= ss.len() {
        (st, locals, Ok(FunctionState::NoReturn))
    } else {
        let (st1, l1, r) = exec_stmt(funcs, fuel, st, locals, ss[i as int]);
        match r {
            Ok(FunctionState::NoReturn) => run_block(funcs, fuel, st1, l1, ss, i + 1),
            _ => (st1, l1, r),
        }
    }
}

/// An expression that the evaluator can run: no placeholder, every call to one
/// of `n` functions, every slot below `s`.
pub open spec fn expr_ok(e: Expr, n: nat, s: nat) -> bool
    decreases e,
{
    match e.node {
        ExprNode::BadExpr => false,
        ExprNode::IntegerLiteral(_) => true,
        ExprNode::StringLiteral(_) => true,
        ExprNode::ArrayLiteral(es) => forall|i: int| 0 <= i < es@.len() ==> expr_ok(#[trigger] es@[i], n, s),
        ExprNode::Identifier(id) => id.var_id < s,
        ExprNode::Binary(_, l, r) => expr_ok(*l, n, s) && expr_ok(*r, n, s),
        ExprNode::Unary(_, x) => expr_ok(*x, n, s),
        ExprNode::Call(fid, args) => fid.idx < n && forall|i: int|
            0 <= i < args@.len() ==> expr_ok(#[trigger] args@[i], n, s),
        ExprNode::Subscription(a, i) => expr_ok(*a, n, s) && expr_ok(*i, n, s),
    }
}

pub open spec fn lexpr_ok(target: LExpr, n: nat, s: nat) -> bool {
    match target {
        LExpr::Identifier(id) => id.var_id < s,
        LExpr::Subscription(a, i) => expr_ok(*a, n, s) && expr_ok(*i, n, s),
    }
}

pub open spec fn stmt_ok(st: Statement, n: nat, s: nat) -> bool
    decreases st,
{
    match st {
        Statement::Return(e) => expr_ok(e, n, s),
        Statement::Expr(e) => expr_ok(e, n, s),
        Statement::Assign(target, e) => lexpr_ok(target, n, s) && expr_ok(e, n, s),
        Statement::If(c, b) => expr_ok(c, n, s) && forall|i: int|
            0 <= i < b@.len() ==> stmt_ok(#[trigger] b@[i], n, s),
        Statement::While(c, b) => expr_ok(c, n, s) && forall|i: int|
            0 <= i < b@.len() ==> stmt_ok(#[trigger] b@[i], n, s),
    }
}

pub open spec fn block_ok(ss: Seq<Statement>, n: nat, s: nat) -> bool {
    forall|i: int| 0 <= i < ss.len() ==> stmt_ok(#[trigger] ss[i], n, s)
}

/// A function table whose bodies the evaluator can run in their own frames.
pub open spec fn funcs_wf(funcs: Seq<Callable>) -> bool {
    forall|i: int|
        0 <= i < funcs.len() ==> (#[trigger] funcs[i] matches Callable::StarLang(f) ==> block_ok(
            f.stmts@,
            funcs.len(),
            f.max_locals as nat,
        ))
}

pub proof fn lemma_expr_ok_mono(e: Expr, n: nat, s: nat, s2: nat)
    requires
        expr_ok(e, n, s),
        s <= s2,
    ensures
        expr_ok(e, n, s2),
    decreases e,
{
    match e.node {
        ExprNode::ArrayLiteral(es) => {
            assert forall|i: int| 0 <= i < es@.len() implies expr_ok(#[trigger] es@[i], n, s2) by {
                lemma_expr_ok_mono(es@[i], n, s, s2);
            }
        },
        ExprNode::Binary(_, l, r) => {
            lemma_expr_ok_mono(*l, n, s, s2);
            lemma_expr_ok_mono(*r, n, s, s2);
        },
        ExprNode::Unary(_, x) => {
            lemma_expr_ok_mono(*x, n, s, s2);
        },
        ExprNode::Call(_, args) => {
            assert forall|i: int| 0 <= i < args@.len() implies expr_ok(#[trigger] args@[i], n, s2) by {
                lemma_expr_ok_mono(args@[i], n, s, s2);
            }
        },
        ExprNode::Subscription(a, i) => {
            lemma_expr_ok_mono(*a, n, s, s2);
            lemma_expr_ok_mono(*i, n, s, s2);
        },
        _ => {},
    }
}

pub proof fn lemma_stmt_ok_mono(st: Statement, n: nat, s: nat, s2: nat)
    requires
        stmt_ok(st, n, s),
        s <= s2,
    ensures
        stmt_ok(st, n, s2),
    decreases st,
{
    match st {
        Statement::Return(e) => lemma_expr_ok_mono(e, n, s, s2),
        Statement::Expr(e) => lemma_expr_ok_mono(e, n, s, s2),
        Statement::Assign(target, e) => {
            lemma_expr_ok_mono(e, n, s, s2);
            if let LExpr::Subscription(a, i) = target {
                lemma_expr_ok_mono(*a, n, s, s2);
                lemma_expr_ok_mono(*i, n, s, s2);
            }
        },
        Statement::If(c, b) => {
            lemma_expr_ok_mono(c, n, s, s2);
            assert forall|i: int| 0 <= i < b@.len() implies stmt_ok(#[trigger] b@[i], n, s2) by {
                lemma_stmt_ok_mono(b@[i], n, s, s2);
            }
        },
        Statement::While(c, b) => {
            lemma_expr_ok_mono(c, n, s, s2);
            assert forall|i: int| 0 <= i < b@.len() implies stmt_ok(#[trigger] b@[i], n, s2) by {
                lemma_stmt_ok_mono(b@[i], n, s, s2);
            }
        },
    }
}

pub proof fn lemma_block_ok_mono(ss: Seq<Statement>, n: nat, s: nat, s2: nat)
    requires
        block_ok(ss, n, s),
        s <= s2,
    ensures
        block_ok(ss, n, s2),
{
    assert forall|i: int| 0 <= i < ss.len() implies stmt_ok(#[trigger] ss[i], n, s2) by {
        lemma_stmt_ok_mono(ss[i], n, s, s2);
    }
}

/// Evaluating an expression never shrinks the heap.
pub proof fn lemma_eval_expr_grows(funcs: Seq<Callable>, fuel: nat, st: RunState, locals: Seq<Value>, e: Expr)
    ensures
        st.heap.len() <= eval_expr(funcs, fuel, st, locals, e).0.heap.len(),
    decreases fuel, 0nat, e, 0nat,
{
    match e.node {
        ExprNode::ArrayLiteral(es) => {
            lemma_eval_args_grows(funcs, fuel, st, locals, es@, 0, seq![]);
        },
        ExprNode::Binary(op, l, r) => {
            lemma_eval_int_grows(funcs, fuel, st, locals, *l);
            let (st1, r1) = eval_int(funcs, fuel, st, locals, *l);
            if r1 is Ok {
                lemma_eval_int_grows(funcs, fuel, st1, locals, *r);
            }
        },
        ExprNode::Unary(_, x) => {
            lemma_eval_int_grows(funcs, fuel, st, locals, *x);
        },
        ExprNode::Call(fid, args) => {
            lemma_eval_args_grows(funcs, fuel, st, locals, args@, 0, seq![]);
            let (st1, r) = eval_args(funcs, fuel, st, locals, args@, 0, seq![]);
            if r is Ok && fuel > 0 {
                lemma_call_function_grows(funcs, (fuel - 1) as nat, st1, fid.idx as int, r->Ok_0);
            }
        },
        ExprNode::Subscription(a, i) => {
            lemma_eval_int_grows(funcs, fuel, st, locals, *i);
            let (st1, ri) = eval_int(funcs, fuel, st, locals, *i);
            if ri is Ok {
                lemma_eval_expr_grows(funcs, fuel, st1, locals, *a);
            }
        },
        _ => {},
    }
}

pub proof fn lemma_eval_int_grows(funcs: Seq<Callable>, fuel: nat, st: RunState, locals: Seq<Value>, e: Expr)
    ensures
        st.heap.len() <= eval_int(funcs, fuel, st, locals, e).0.heap.len(),
    decreases fuel, 0nat, e, 1nat,
{
    lemma_eval_expr_grows(funcs, fuel, st, locals, e);
}

pub proof fn lemma_eval_args_grows(
    funcs: Seq<Callable>,
    fuel: nat,
    st: RunState,
    locals: Seq<Value>,
    es: Seq<Expr>,
    i: nat,
    acc: Seq<Value>,
)
    ensures
        st.heap.len() <= eval_args(funcs, fuel, st, locals, es, i, acc).0.heap.len(),
    decreases fuel, 0nat, es, es.len() - i,
{
    if i < es.len() {
        lemma_eval_expr_grows(funcs, fuel, st, locals, es[i as int]);
        let (st1, r) = eval_expr(funcs, fuel, st, locals, es[i as int]);
        if r is Ok {
            lemma_eval_args_grows(funcs, fuel, st1, locals, es, i + 1, acc.push(r->Ok_0));
        }
    }
}

pub proof fn lemma_call_function_grows(
    funcs: Seq<Callable>,
    fuel: nat,
    st: RunState,
    fid: int,
    args: Seq<Value>,
)
    ensures
        st.heap.len() <= call_function(funcs, fuel, st, fid, args).0.heap.len(),
    decreases fuel, 3nat,
{
    if let Callable::StarLang(f) = funcs[fid] {
        lemma_run_block_grows(funcs, fuel, st, new_frame(args, f.max_locals as nat), f.stmts@, 0);
    }
}

pub proof fn lemma_assign_to_grows(
    funcs: Seq<Callable>,
    fuel: nat,
    st: RunState,
    locals: Seq<Value>,
    target: LExpr,
    v: Value,
)
    ensures
        st.heap.len() <= assign_to(funcs, fuel, st, locals, target, v).0.heap.len(),
    decreases fuel, 1nat, target, 0nat,
{
    if let LExpr::Subscription(a, i) = target {
        lemma_eval_int_grows(funcs, fuel, st, locals, *i);
        let (st1, ri) = eval_int(funcs, fuel, st, locals, *i);
        if ri is Ok {
            lemma_eval_expr_grows(funcs, fuel, st1, locals, *a);
            let (st2, ra) = eval_expr(funcs, fuel, st1, locals, *a);
            assert(assign_to(funcs, fuel, st, locals, target, v).0.heap.len() == st2.heap.len());
        }
    }
}

pub proof fn lemma_exec_stmt_grows(funcs: Seq<Callable>, fuel: nat, st: RunState, locals: Seq<Value>, s: Statement)
    ensures
        st.heap.len() <= exec_stmt(funcs, fuel, st, locals, s).0.heap.len(),
    decreases fuel, 2nat, s, 0nat,
{
    match s {
        Statement::Return(e) => lemma_eval_expr_grows(funcs, fuel, st, locals, e),
        Statement::Expr(e) => lemma_eval_expr_grows(funcs, fuel, st, locals, e),
        Statement::Assign(target, e) => {
            lemma_eval_expr_grows(funcs, fuel, st, locals, e);
            let (st1, r) = eval_expr(funcs, fuel, st, locals, e);
            if r is Ok {
                lemma_assign_to_grows(funcs, fuel, st1, locals, target, r->Ok_0);
            }
        },
        Statement::If(c, b) => {
            lemma_eval_int_grows(funcs, fuel, st, locals, c);
            let (st1, r) = eval_int(funcs, fuel, st, locals, c);
            if r is Ok {
                lemma_run_block_grows(funcs, fuel, st1, locals, b@, 0);
            }
        },
        Statement::While(c, b) => {
            if fuel > 0 {
                let f = (fuel - 1) as nat;
                lemma_eval_int_grows(funcs, f, st, locals, c);
                let (st1, r) = eval_int(funcs, f, st, locals, c);
                if r is Ok {
                    lemma_run_block_grows(funcs, f, st1, locals, b@, 0);
                    let (st2, l2, r2) = run_block(funcs, f, st1, locals, b@, 0);
                    lemma_exec_stmt_grows(funcs, f, st2, l2, s);
                }
            }
        },
    }
}

pub proof fn lemma_run_block_grows(
    funcs: Seq<Callable>,
    fuel: nat,
    st: RunState,
    locals: Seq<Value>,
    ss: Seq<Statement>,
    i: nat,
)
    ensures
        st.heap.len() <= run_block(funcs, fuel, st, locals, ss, i).0.heap.len(),
    decreases fuel, 2nat, ss, ss.len() - i,
{
    if i < ss.len() {
        lemma_exec_stmt_grows(funcs, fuel, st, locals, ss[i as int]);
        let (st1, l1, r) = exec_stmt(funcs, fuel, st, locals, ss[i as int]);
        lemma_run_block_grows(funcs, fuel, st1, l1, ss, i + 1);
    }
}

} // verus!
