//! Evaluating expressions, and building them from the syntax tree.

use vstd::prelude::*;

use super::base::{
    exec_block, valid_value, valid_values, Callable, Expr, ExprNode, FunctionId,
    FunctionState, Globals, Locals, PlatformFunction, Runtime, Value,
};
use super::error::{result_view, runtime_failure, Abort, AbortView, RuntimeFailureKind};
use super::semantics::{
    allocate, as_bool, binary_int, call_function, eval_args, eval_expr, eval_int, evolves,
    expr_ok, funcs_wf, lemma_block_ok_mono, new_frame, platform_call, push_site, short_circuits,
    truth, unary_int, zeros,
};
use super::base::{lemma_last_index_of_bounds, CodeSite, LExpr, ScopeStack};
use super::error::StaticAnalysisError;
use super::building::{
    char_codes, expr_built, expr_errors, expr_resolves, lexpr_built, lexpr_errors, lexpr_resolves,
    list_built, list_errors, list_resolves,
};
use super::semantics::lexpr_ok;
use crate::ast::{self, BinaryOpCode, UnaryOpCode};

verus! {

/// A read or write of a frame slot.
#[derive(Clone, Copy, Debug, PartialEq, Eq, Structural)]
pub struct Identifier {
    pub var_id: usize,
}

impl Identifier {
    pub fn new(var_id: usize) -> (r: Self)
        ensures
            r.var_id == var_id,
    {
        Identifier { var_id }
    }
}

/// The values of a list evaluation, as a sequence.
pub open spec fn values_view(r: Result<Vec<Value>, Abort>) -> Result<Seq<Value>, AbortView> {
    match r {
        Ok(v) => Ok(v@),
        Err(a) => Err(a.view()),
    }
}

/// Adds a call's site to a failure that leaves it.
fn add_call_site(a: Abort, site: super::base::CodeSite) -> (r: Abort)
    ensures
        r.view() == push_site(a.view(), site),
{
    match a {
        Abort::Failure(kind, mut trace) => {
            trace.push(site);
            Abort::Failure(kind, trace)
        },
        Abort::Exit(n) => Abort::Exit(n),
    }
}

/// Puts a new array on the heap and returns its handle.
pub(crate) fn store_array(rt: &mut Runtime, vals: Vec<Value>) -> (r: Value)
    requires
        old(rt).wf(),
        valid_values(vals@, old(rt)@.heap.len()),
    ensures
        final(rt).wf(),
        evolves(old(rt)@, final(rt)@),
        (final(rt)@, Ok::<Value, AbortView>(r)) == allocate(old(rt)@, vals@),
        valid_value(r, final(rt)@.heap.len()),
{
    let id = rt.heap.len();
    let ghost vs = vals@;
    rt.heap.push(vals);
    assert(rt@.heap =~= old(rt)@.heap.push(vs));
    Value::Array(id)
}

/// The value of a binary operator that is not short-circuiting.
fn apply_binary(op: BinaryOpCode, l: i32, r: i32) -> (res: Option<i32>)
    ensures
        res == binary_int(op, l, r),
{
    match op {
        BinaryOpCode::Add => Some(l.wrapping_add(r)),
        BinaryOpCode::Sub => Some(l.wrapping_sub(r)),
        BinaryOpCode::Mul => Some(l.wrapping_mul(r)),
        BinaryOpCode::Div => l.checked_div(r),
        BinaryOpCode::Mod => l.checked_rem(r),
        BinaryOpCode::LeftShift => Some(l.wrapping_shl(r as u32)),
        BinaryOpCode::RightShift => Some(l.wrapping_shr(r as u32)),
        BinaryOpCode::BitOr => Some(l | r),
        BinaryOpCode::BitXor => Some(l ^ r),
        BinaryOpCode::BitAnd => Some(l & r),
        BinaryOpCode::LessThan => Some(if l < r { 1 } else { 0 }),
        BinaryOpCode::MoreThan => Some(if l > r { 1 } else { 0 }),
        BinaryOpCode::LessThanOrEqual => Some(if l <= r { 1 } else { 0 }),
        BinaryOpCode::MoreThanOrEqual => Some(if l >= r { 1 } else { 0 }),
        BinaryOpCode::Equal => Some(if l == r { 1 } else { 0 }),
        BinaryOpCode::NotEqual => Some(if l != r { 1 } else { 0 }),
        BinaryOpCode::BoolOr => Some(if l != 0 || r != 0 { 1 } else { 0 }),
        BinaryOpCode::BoolAnd => Some(if l != 0 && r != 0 { 1 } else { 0 }),
    }
}

fn apply_unary(op: UnaryOpCode, v: i32) -> (r: i32)
    ensures
        r == unary_int(op, v),
{
    match op {
        UnaryOpCode::Neg => 0i32.wrapping_sub(v),
        UnaryOpCode::Plus => v,
        UnaryOpCode::BitNot => !v,
        UnaryOpCode::BoolNot => if v != 0 {
            0
        } else {
            1
        },
    }
}

/// Whether a boolean operator is decided by its left operand `l`.
fn should_return(op: BinaryOpCode, l: i32) -> (r: bool)
    ensures
        r == short_circuits(op, l),
{
    (op == BinaryOpCode::BoolOr && l != 0) || (op == BinaryOpCode::BoolAnd && l == 0)
}

/// Evaluates `exprs` left to right in the caller's frame.
fn evaluate_expr_list(
    rt: &mut Runtime,
    globals: &Globals,
    fuel: u64,
    locals: &Locals,
    exprs: &Vec<Expr>,
) -> (r: Result<Vec<Value>, Abort>)
    requires
        old(rt).wf(),
        funcs_wf(globals.functions@),
        forall|i: int|
            0 <= i < exprs@.len() ==> expr_ok(
                #[trigger] exprs@[i],
                globals.functions@.len(),
                locals.vars@.len(),
            ),
        valid_values(locals.vars@, old(rt)@.heap.len()),
    ensures
        final(rt).wf(),
        evolves(old(rt)@, final(rt)@),
        (final(rt)@, values_view(r)) == eval_args(
            globals.functions@,
            fuel as nat,
            old(rt)@,
            locals.vars@,
            exprs@,
            0,
            seq![],
        ),
        r matches Ok(vs) ==> valid_values(vs@, final(rt)@.heap.len()),
    decreases fuel, 0nat, exprs, 0nat,
{
    let mut rv: Vec<Value> = Vec::new();
    let mut i: usize = 0;
    while i < exprs.len()
        invariant
            i <= exprs@.len(),
            rt.wf(),
            funcs_wf(globals.functions@),
            forall|j: int|
                0 <= j < exprs@.len() ==> expr_ok(
                    #[trigger] exprs@[j],
                    globals.functions@.len(),
                    locals.vars@.len(),
                ),
            valid_values(locals.vars@, rt@.heap.len()),
            valid_values(rv@, rt@.heap.len()),
            evolves(old(rt)@, rt@),
            eval_args(globals.functions@, fuel as nat, old(rt)@, locals.vars@, exprs@, 0, seq![])
                == eval_args(
                globals.functions@,
                fuel as nat,
                rt@,
                locals.vars@,
                exprs@,
                i as nat,
                rv@,
            ),
        decreases exprs@.len() - i,
    {
        match evaluate(rt, globals, fuel, locals, &exprs[i]) {
            Ok(v) => rv.push(v),
            Err(a) => return Err(a),
        }
        i = i + 1;
    }
    Ok(rv)
}

/// Evaluates an expression that must yield an integer.
pub(crate) fn evaluate_to_int(rt: &mut Runtime, globals: &Globals, fuel: u64, locals: &Locals, expr: &Expr) -> (r:
    Result<i32, Abort>)
    requires
        old(rt).wf(),
        funcs_wf(globals.functions@),
        expr_ok(*expr, globals.functions@.len(), locals.vars@.len()),
        valid_values(locals.vars@, old(rt)@.heap.len()),
    ensures
        final(rt).wf(),
        evolves(old(rt)@, final(rt)@),
        (final(rt)@, result_view(r)) == eval_int(
            globals.functions@,
            fuel as nat,
            old(rt)@,
            locals.vars@,
            *expr,
        ),
    decreases fuel, 0nat, expr, 1nat,
{
    match evaluate(rt, globals, fuel, locals, expr) {
        Ok(Value::Integer(n)) => Ok(n),
        Ok(Value::Array(_)) => Err(runtime_failure(RuntimeFailureKind::ExpectedIntGotArray, expr)),
        Err(a) => Err(a),
    }
}

/// Evaluates an expression as a truth value: any non-zero integer is true.
pub fn evaluate_to_bool(
    rt: &mut Runtime,
    globals: &Globals,
    fuel: u64,
    locals: &Locals,
    expr: &Expr,
) -> (r: Result<bool, Abort>)
    requires
        old(rt).wf(),
        funcs_wf(globals.functions@),
        expr_ok(*expr, globals.functions@.len(), locals.vars@.len()),
        valid_values(locals.vars@, old(rt)@.heap.len()),
    ensures
        final(rt).wf(),
        evolves(old(rt)@, final(rt)@),
        ({
            let (st, ri) = eval_int(globals.functions@, fuel as nat, old(rt)@, locals.vars@, *expr);
            final(rt)@ == st && result_view(r) == as_bool(ri)
        }),
    decreases fuel, 0nat, expr, 2nat,
{
    match evaluate_to_int(rt, globals, fuel, locals, expr) {
        Ok(n) => Ok(n != 0),
        Err(a) => Err(a),
    }
}

/// Applies a built-in function.
fn call_platform(rt: &mut Runtime, p: PlatformFunction, args: Vec<Value>) -> (r: Result<Value, Abort>)
    requires
        old(rt).wf(),
        valid_values(args@, old(rt)@.heap.len()),
    ensures
        final(rt).wf(),
        evolves(old(rt)@, final(rt)@),
        (final(rt)@, result_view(r)) == platform_call(p, old(rt)@, args@),
        r matches Ok(v) ==> valid_value(v, final(rt)@.heap.len()),
{
    if p == PlatformFunction::Getc {
        if rt.input_pos < rt.input.len() {
            let c = rt.input[rt.input_pos];
            rt.input_pos = rt.input_pos + 1;
            return Ok(Value::Integer(c as i32));
        } else {
            return Ok(Value::Integer(-1));
        }
    }
    if args.len() == 0 {
        return Err(Abort::Failure(RuntimeFailureKind::MissingArgument, Vec::new()));
    }
    match (p, args[0]) {
        (PlatformFunction::Len, Value::Integer(_)) => Ok(Value::Integer(-1)),
        (PlatformFunction::Len, Value::Array(id)) => Ok(Value::Integer(rt.heap[id].len() as i32)),
        (_, Value::Array(_)) => Err(
            Abort::Failure(RuntimeFailureKind::ExpectedIntGotArray, Vec::new()),
        ),
        (PlatformFunction::New, Value::Integer(n)) => {
            if n < 0 {
                Err(Abort::Failure(RuntimeFailureKind::NegativeArrayLength, Vec::new()))
            } else {
                let len = n as usize;
                let mut vals: Vec<Value> = Vec::new();
                let mut k: usize = 0;
                while k < len
                    invariant
                        k <= len,
                        len == n as nat,
                        vals@ == zeros(k as nat),
                    decreases len - k,
                {
                    vals.push(Value::Integer(0));
                    k = k + 1;
                    assert(vals@ =~= zeros(k as nat));
                }
                Ok(store_array(rt, vals))
            }
        },
        (PlatformFunction::Putc, Value::Integer(c)) => {
            rt.output.push(c as u8);
            Ok(Value::Integer(0))
        },
        (PlatformFunction::Exit, Value::Integer(n)) => Err(Abort::Exit(n)),
        (PlatformFunction::Getc, Value::Integer(_)) => Ok(Value::Integer(-1)),
    }
}

/// Calls function `func_id` with argument values `args`: a built-in is
/// applied; a function of the program runs in a new frame holding the
/// arguments, then zeros.
///
/// A built-in given an array where it needs an integer (`new`, `putc`,
/// `exit`) stops the run with `ExpectedIntGotArray` instead of aborting the
/// process: the failure is recoverable, like every other run-time failure.
pub fn call_func(
    rt: &mut Runtime,
    globals: &Globals,
    fuel: u64,
    func_id: FunctionId,
    args: Vec<Value>,
) -> (r: Result<Value, Abort>)
    requires
        old(rt).wf(),
        funcs_wf(globals.functions@),
        func_id.idx < globals.functions@.len(),
        valid_values(args@, old(rt)@.heap.len()),
    ensures
        final(rt).wf(),
        evolves(old(rt)@, final(rt)@),
        (final(rt)@, result_view(r)) == call_function(
            globals.functions@,
            fuel as nat,
            old(rt)@,
            func_id.idx as int,
            args@,
        ),
        r matches Ok(v) ==> valid_value(v, final(rt)@.heap.len()),
    decreases fuel, 3nat,
{
    match globals.lookup_func(func_id) {
        Callable::Platform(p) => call_platform(rt, *p, args),
        Callable::StarLang(f) => {
            let ghost args_v = args@;
            let mut vars = args;
            assert(vars@ =~= args_v + zeros(0));
            while vars.len() < f.max_locals
                invariant
                    vars@.len() >= args_v.len(),
                    vars@.len() == args_v.len() || vars@.len() <= f.max_locals,
                    vars@ == args_v + zeros((vars@.len() - args_v.len()) as nat),
                    valid_values(vars@, rt@.heap.len()),
                decreases f.max_locals - vars@.len(),
            {
                vars.push(Value::Integer(0));
                assert(vars@ =~= args_v + zeros((vars@.len() - args_v.len()) as nat));
            }
            proof {
                if args_v.len() >= f.max_locals {
                    assert(zeros(0) =~= seq![]);
                }
                assert(vars@ =~= new_frame(args_v, f.max_locals as nat));
                assert(globals.functions@[func_id.idx as int] matches Callable::StarLang(g)
                    && g == f);
                lemma_block_ok_mono(
                    f.stmts@,
                    globals.functions@.len(),
                    f.max_locals as nat,
                    vars@.len(),
                );
            }
            let mut frame = Locals { vars };
            match exec_block(rt, globals, fuel, &mut frame, &f.stmts) {
                Ok(FunctionState::Return(v)) => Ok(v),
                Ok(FunctionState::NoReturn) => Ok(Value::Integer(0)),
                Err(a) => Err(a),
            }
        },
    }
}

/// Evaluates an expression in a frame.
pub fn evaluate(rt: &mut Runtime, globals: &Globals, fuel: u64, locals: &Locals, expr: &Expr) -> (r:
    Result<Value, Abort>)
    requires
        old(rt).wf(),
        funcs_wf(globals.functions@),
        expr_ok(*expr, globals.functions@.len(), locals.vars@.len()),
        valid_values(locals.vars@, old(rt)@.heap.len()),
    ensures
        final(rt).wf(),
        evolves(old(rt)@, final(rt)@),
        (final(rt)@, result_view(r)) == eval_expr(
            globals.functions@,
            fuel as nat,
            old(rt)@,
            locals.vars@,
            *expr,
        ),
        r matches Ok(v) ==> valid_value(v, final(rt)@.heap.len()),
    decreases fuel, 0nat, expr, 0nat,
{
    match &expr.node {
        ExprNode::BadExpr => Ok(Value::Integer(0)),
        ExprNode::IntegerLiteral(n) => Ok(Value::Integer(*n)),
        ExprNode::StringLiteral(codes) => {
            let mut vals: Vec<Value> = Vec::new();
            let mut i: usize = 0;
            while i < codes.len()
                invariant
                    i <= codes@.len(),
                    vals@ == Seq::new(i as nat, |j: int| Value::Integer(codes@[j])),
                decreases codes@.len() - i,
            {
                vals.push(Value::Integer(codes[i]));
                i = i + 1;
                assert(vals@ =~= Seq::new(i as nat, |j: int| Value::Integer(codes@[j])));
            }
            Ok(store_array(rt, vals))
        },
        ExprNode::ArrayLiteral(exprs) => match evaluate_expr_list(rt, globals, fuel, locals, exprs) {
            Ok(vals) => Ok(store_array(rt, vals)),
            Err(a) => Err(a),
        },
        ExprNode::Identifier(id) => Ok(locals.vars[id.var_id]),
        ExprNode::Binary(op, lhs, rhs) => {
            let l = match evaluate_to_int(rt, globals, fuel, locals, lhs) {
                Ok(l) => l,
                Err(a) => return Err(a),
            };
            if should_return(*op, l) {
                return Ok(Value::Integer(if l != 0 { 1 } else { 0 }));
            }
            let r = match evaluate_to_int(rt, globals, fuel, locals, rhs) {
                Ok(r) => r,
                Err(a) => return Err(a),
            };
            match apply_binary(*op, l, r) {
                Some(v) => Ok(Value::Integer(v)),
                None => Err(runtime_failure(RuntimeFailureKind::InvalidDivision, expr)),
            }
        },
        ExprNode::Unary(op, operand) => match evaluate_to_int(rt, globals, fuel, locals, operand) {
            Ok(v) => Ok(Value::Integer(apply_unary(*op, v))),
            Err(a) => Err(a),
        },
        ExprNode::Call(func_id, argument_exprs) => {
            let args = match evaluate_expr_list(rt, globals, fuel, locals, argument_exprs) {
                Ok(args) => args,
                Err(a) => return Err(add_call_site(a, expr.site)),
            };
            let res = if fuel == 0 {
                Err(Abort::Failure(RuntimeFailureKind::EvaluationLimitReached, Vec::new()))
            } else {
                call_func(rt, globals, fuel - 1, *func_id, args)
            };
            match res {
                Ok(v) => Ok(v),
                Err(a) => Err(add_call_site(a, expr.site)),
            }
        },
        ExprNode::Subscription(array_expr, index_expr) => {
            let index = match evaluate_to_int(rt, globals, fuel, locals, index_expr) {
                Ok(n) => n,
                Err(a) => return Err(a),
            };
            match evaluate(rt, globals, fuel, locals, array_expr) {
                Err(a) => Err(a),
                Ok(Value::Integer(_)) => Err(
                    runtime_failure(RuntimeFailureKind::ExpectedArrayGotInt, array_expr),
                ),
                Ok(Value::Array(id)) => {
                    if 0 <= index && (index as usize) < rt.heap[id].len() {
                        proof {
                            assert(valid_values(rt@.heap[id as int], rt@.heap.len()));
                            assert(valid_value(rt@.heap[id as int][index as int], rt@.heap.len()));
                        }
                        Ok(rt.heap[id][index as usize])
                    } else {
                        Err(runtime_failure(RuntimeFailureKind::IndexOutOfBounds, index_expr))
                    }
                },
            }
        },
    }
}

/// The character codes of a string literal.
fn string_codes(s: &String) -> (r: Vec<i32>)
    ensures
        r@ == char_codes(s@),
{
    let mut r: Vec<i32> = Vec::new();
    for c in it: s.as_str().chars()
        invariant
            it.seq() == s@,
            r@ == char_codes(it.seq().take(it.index() as int)),
    {
        proof {
            assert(char_codes(it.seq().take(it.index() + 1)) =~= char_codes(
                it.seq().take(it.index() as int),
            ).push(c as i32));
        }
        r.push(c as i32);
    }
    r
}

/// Builds each of `exprs`, collecting every error.
fn build_expr_list(globals: &Globals, scope_stack: &ScopeStack, exprs: &Vec<ast::Expr>) -> (r: (
    Vec<Expr>,
    Vec<StaticAnalysisError>,
))
    requires
        scope_stack.wf(),
        list_resolves(scope_stack@, exprs@),
    ensures
        list_built(globals.names_seq(), scope_stack@, exprs@, r.0@),
        r.1@ == list_errors(globals.names_seq(), scope_stack@, exprs@, exprs@.len()),
        r.1@.len() == 0 ==> forall|i: int|
            0 <= i < r.0@.len() ==> expr_ok(
                #[trigger] r.0@[i],
                globals.names@.len(),
                scope_stack@.current,
            ),
    decreases exprs, 0nat,
{
    let mut rv: Vec<Expr> = Vec::new();
    let mut failures: Vec<StaticAnalysisError> = Vec::new();
    let mut i: usize = 0;
    while i < exprs.len()
        invariant
            i <= exprs@.len(),
            scope_stack.wf(),
            list_resolves(scope_stack@, exprs@),
            rv@.len() == i,
            forall|j: int|
                0 <= j < i ==> expr_built(
                    globals.names_seq(),
                    scope_stack@,
                    #[trigger] exprs@[j],
                    rv@[j],
                ),
            failures@ == list_errors(globals.names_seq(), scope_stack@, exprs@, i as nat),
            failures@.len() == 0 ==> forall|j: int|
                0 <= j < i ==> expr_ok(#[trigger] rv@[j], globals.names@.len(), scope_stack@.current),
        decreases exprs@.len() - i,
    {
        let (e, mut f) = build_expr(globals, scope_stack, &exprs[i]);
        rv.push(e);
        failures.append(&mut f);
        i = i + 1;
    }
    (rv, failures)
}

/// Builds an expression. Building never stops at an error: every call to an
/// unknown function is reported, and a placeholder stands in its place. Every
/// name must be in scope: an unresolved one is the caller's defect, not an
/// error of the program.
pub fn build_expr(globals: &Globals, scope_stack: &ScopeStack, expr: &ast::Expr) -> (r: (
    Expr,
    Vec<StaticAnalysisError>,
))
    requires
        scope_stack.wf(),
        expr_resolves(scope_stack@, *expr),
    ensures
        expr_built(globals.names_seq(), scope_stack@, *expr, r.0),
        r.1@ == expr_errors(globals.names_seq(), scope_stack@, *expr),
        r.1@.len() == 0 ==> expr_ok(r.0, globals.names@.len(), scope_stack@.current),
    decreases expr, 0nat,
{
    let site = CodeSite { start: expr.start, end: expr.end };
    let mut failures: Vec<StaticAnalysisError> = Vec::new();
    let node = match &expr.kind {
        ast::ExprKind::Number(n) => ExprNode::IntegerLiteral(*n),
        ast::ExprKind::Char(c) => ExprNode::IntegerLiteral(*c as i32),
        ast::ExprKind::String(s) => ExprNode::StringLiteral(string_codes(s)),
        ast::ExprKind::Identifier(name) => ExprNode::Identifier(
            Identifier::new(scope_stack.get(name.as_str())),
        ),
        ast::ExprKind::BinaryOp(l, op, r) => {
            let (lhs, mut fl) = build_expr(globals, scope_stack, l);
            let (rhs, mut fr) = build_expr(globals, scope_stack, r);
            failures.append(&mut fl);
            failures.append(&mut fr);
            ExprNode::Binary(*op, Box::new(lhs), Box::new(rhs))
        },
        ast::ExprKind::UnaryOp(op, e) => {
            let (operand, mut fe) = build_expr(globals, scope_stack, e);
            failures.append(&mut fe);
            ExprNode::Unary(*op, Box::new(operand))
        },
        ast::ExprKind::Call(fname, argument_exprs) => {
            let (args, mut fa) = build_expr_list(globals, scope_stack, argument_exprs);
            failures.append(&mut fa);
            match globals.reference_func(fname.as_str()) {
                Some(func) => {
                    proof {
                        lemma_last_index_of_bounds(globals.names_seq(), fname@);
                    }
                    ExprNode::Call(func, args)
                },
                None => {
                    failures.push(
                        StaticAnalysisError::CallUnknownFunction(fname.clone(), expr.start, expr.end),
                    );
                    ExprNode::BadExpr
                },
            }
        },
        ast::ExprKind::Array(value_exprs) => {
            let (values, mut fv) = build_expr_list(globals, scope_stack, value_exprs);
            failures.append(&mut fv);
            ExprNode::ArrayLiteral(values)
        },
        ast::ExprKind::Subscription(array_expr, index_expr) => {
            let (a, mut fa) = build_expr(globals, scope_stack, array_expr);
            let (i, mut fi) = build_expr(globals, scope_stack, index_expr);
            failures.append(&mut fa);
            failures.append(&mut fi);
            ExprNode::Subscription(Box::new(a), Box::new(i))
        },
        ast::ExprKind::Error => ExprNode::BadExpr,
    };
    (Expr { node, site }, failures)
}

/// Builds an assignment target: a variable, or an element of an array.
pub fn build_lexpr(globals: &Globals, scope_stack: &ScopeStack, expr: &ast::Expr) -> (r: (
    LExpr,
    Vec<StaticAnalysisError>,
))
    requires
        scope_stack.wf(),
        lexpr_resolves(scope_stack@, *expr),
    ensures
        lexpr_built(globals.names_seq(), scope_stack@, *expr, r.0),
        r.1@ == lexpr_errors(globals.names_seq(), scope_stack@, *expr),
        r.1@.len() == 0 ==> lexpr_ok(r.0, globals.names@.len(), scope_stack@.current),
{
    match &expr.kind {
        ast::ExprKind::Identifier(name) => (
            LExpr::Identifier(Identifier::new(scope_stack.get(name.as_str()))),
            Vec::new(),
        ),
        ast::ExprKind::Subscription(array_expr, index_expr) => {
            let (a, mut failures) = build_expr(globals, scope_stack, array_expr);
            let (i, mut fi) = build_expr(globals, scope_stack, index_expr);
            failures.append(&mut fi);
            (LExpr::Subscription(Box::new(a), Box::new(i)), failures)
        },
        _ => {
            proof {
                assert(false);
            }
            (LExpr::Identifier(Identifier::new(0)), Vec::new())
        },
    }
}

} // verus!
