//! The core's entry point: declare every function, build every body, refuse to
//! run on any static-analysis error, then call `main`.

use vstd::prelude::*;

use super::base::{
    last_index_of, name_main, platform_functions, platform_names, valid_values, Callable,
    Globals, Runtime, RunState, ScopeStack, ScopeView, Statement, Value,
};
use super::error::{AbortView, Abort, ExecError, RuntimeFailureKind, StaticAnalysisError};
use super::expressions::{call_func, store_array};
use super::semantics::{block_ok, call_function, funcs_wf, lemma_block_ok_mono};
use super::statements::build_block;
use super::building::{block_built, block_decls, block_errors, block_resolves, block_scope};
use crate::ast;

verus! {

/// The evaluation budget of a run.
pub const EVALUATION_FUEL: u64 = 18446744073709551615;

/// The function names of a program, by id: the built-in functions first.
pub open spec fn programme_names(programme: Seq<ast::Function>) -> Seq<Seq<char>> {
    platform_names() + Seq::new(programme.len(), |i: int| programme[i].name@)
}

/// The scope a function body is built in: one slot per parameter, in order.
pub open spec fn args_scope(args: Seq<String>, n: nat) -> ScopeView
    decreases n,
{
    if n == 0 || n > args.len() {
        ScopeView { entries: seq![], marks: seq![], current: 0, max: 0 }
    } else {
        args_scope(args, (n - 1) as nat).declare(args[n - 1]@)
    }
}

pub open spec fn func_scope(f: ast::Function) -> ScopeView {
    args_scope(f.arguments@, f.arguments@.len())
}

/// The errors found while building a function body.
pub open spec fn func_errors(names: Seq<Seq<char>>, f: ast::Function) -> Seq<StaticAnalysisError> {
    block_errors(names, func_scope(f), f.stmts@, f.stmts@.len())
}

/// The errors found while building `programme[..n]`, in order.
pub open spec fn programme_errors(names: Seq<Seq<char>>, programme: Seq<ast::Function>, n: nat) -> Seq<
    StaticAnalysisError,
>
    decreases n,
{
    if n == 0 || n > programme.len() {
        seq![]
    } else {
        programme_errors(names, programme, (n - 1) as nat) + func_errors(names, programme[n - 1])
    }
}

/// `c` is what building function `f` produces: its body, and a frame with one
/// slot per parameter and declaration.
pub open spec fn func_built(names: Seq<Seq<char>>, f: ast::Function, c: Callable) -> bool {
    c matches Callable::StarLang(sf) && block_built(names, func_scope(f), f.stmts@, sf.stmts@)
        && sf.max_locals == block_scope(func_scope(f), f.stmts@, f.stmts@.len()).max
}

/// `funcs` is the function table built from `programme`.
pub open spec fn programme_built(programme: Seq<ast::Function>, funcs: Seq<Callable>) -> bool {
    &&& funcs.len() == 5 + programme.len()
    &&& forall|i: int| 0 <= i < 5 ==> funcs[i] == Callable::Platform(platform_functions()[i])
    &&& forall|i: int|
        0 <= i < programme.len() ==> func_built(
            programme_names(programme),
            #[trigger] programme[i],
            funcs[5 + i],
        )
}

/// Every frame size of the program fits a `usize`.
pub open spec fn frames_fit(programme: Seq<ast::Function>) -> bool {
    forall|i: int|
        0 <= i < programme.len() ==> #[trigger] programme[i].arguments@.len() + block_decls(
            programme[i].stmts@,
            programme[i].stmts@.len(),
        ) <= usize::MAX
}

/// Every function body resolves in the scope of its parameters.
pub open spec fn programme_resolves(programme: Seq<ast::Function>) -> bool {
    forall|i: int|
        0 <= i < programme.len() ==> block_resolves(
            func_scope(#[trigger] programme[i]),
            programme[i].stmts@,
        )
}

/// The program defines a function named `main`.
pub open spec fn defines_main(programme: Seq<ast::Function>) -> bool {
    exists|i: int| 0 <= i < programme.len() && #[trigger] programme[i].name@ == name_main()
}

/// A string as an array of character codes.
pub open spec fn string_values(s: Seq<char>) -> Seq<Value> {
    Seq::new(s.len(), |i: int| Value::Integer(s[i] as i32))
}

/// The heap at the start of a run: one array per argument, then the array of
/// their handles.
pub open spec fn args_heap(args: Seq<String>) -> Seq<Seq<Value>> {
    Seq::new(args.len(), |i: int| string_values(args[i]@)).push(
        Seq::new(args.len(), |i: int| Value::Array(i as usize)),
    )
}

/// The run-time state at the start of a run.
pub open spec fn initial_state(args: Seq<String>, input: Seq<u8>) -> RunState {
    RunState { heap: args_heap(args), input, input_pos: 0, output: seq![] }
}

/// What `exec` reports for the outcome `res` of calling `main`.
pub open spec fn reports(r: Result<i32, ExecError>, res: Result<Value, AbortView>) -> bool {
    match res {
        Ok(Value::Integer(n)) => r == Ok::<i32, ExecError>(n),
        Err(AbortView::Exit(n)) => r == Ok::<i32, ExecError>(n),
        Ok(Value::Array(_)) => r matches Err(ExecError::RuntimeFailure(k, trace)) && k
            == RuntimeFailureKind::ExpectedIntGotArray && trace@ == Seq::<super::base::CodeSite>::empty(),
        Err(AbortView::Failure(kind, sites)) => r matches Err(ExecError::RuntimeFailure(k, trace))
            && k == kind && trace@ == sites,
    }
}

pub proof fn lemma_last_index_of_exists(names: Seq<Seq<char>>, name: Seq<char>)
    ensures
        (last_index_of(names, name) is Some) <==> exists|i: int|
            0 <= i < names.len() && names[i] == name,
    decreases names.len(),
{
    if names.len() > 0 {
        lemma_last_index_of_exists(names.drop_last(), name);
        if names.last() != name {
            if exists|i: int| 0 <= i < names.len() && names[i] == name {
                let i = choose|i: int| 0 <= i < names.len() && names[i] == name;
                assert(names.drop_last()[i] == name);
            }
        }
    }
}

/// Whether the program defines a function named `main`.
pub fn has_main_function(programme: &[ast::Function]) -> (r: bool)
    ensures
        r == defines_main(programme@),
{
    let main = "main".to_owned();
    proof {
        reveal_strlit("main");
        assert(main@ =~= name_main());
    }
    let mut i: usize = 0;
    while i < programme.len()
        invariant
            i <= programme@.len(),
            main@ == name_main(),
            forall|j: int| 0 <= j < i ==> #[trigger] programme@[j].name@ != name_main(),
        decreases programme@.len() - i,
    {
        if programme[i].name == main {
            return true;
        }
        i = i + 1;
    }
    false
}

/// Declares every function of the program, in order.
fn collect_funcs(globals: &mut Globals, programme: &[ast::Function])
    ensures
        final(globals).names_seq() == old(globals).names_seq() + Seq::new(
            programme@.len(),
            |i: int| programme@[i].name@,
        ),
        final(globals).functions@ == old(globals).functions@,
{
    let mut i: usize = 0;
    while i < programme.len()
        invariant
            i <= programme@.len(),
            globals.names_seq() == old(globals).names_seq() + Seq::new(
                i as nat,
                |j: int| programme@[j].name@,
            ),
            globals.functions@ == old(globals).functions@,
        decreases programme@.len() - i,
    {
        globals.declare_func(&programme[i]);
        i = i + 1;
        assert(globals.names_seq() =~= old(globals).names_seq() + Seq::new(
            i as nat,
            |j: int| programme@[j].name@,
        ));
    }
}

/// Builds one function body in a scope holding its parameters.
fn build_func(globals: &Globals, func: &ast::Function) -> (r: (
    (Vec<Statement>, usize),
    Vec<StaticAnalysisError>,
))
    requires
        func.arguments@.len() + block_decls(func.stmts@, func.stmts@.len()) <= usize::MAX,
        block_resolves(func_scope(*func), func.stmts@),
    ensures
        block_built(globals.names_seq(), func_scope(*func), func.stmts@, r.0.0@),
        r.0.1 == block_scope(func_scope(*func), func.stmts@, func.stmts@.len()).max,
        r.1@ == func_errors(globals.names_seq(), *func),
        r.1@.len() == 0 ==> block_ok(r.0.0@, globals.names@.len(), r.0.1 as nat),
{
    let mut scope_stack = ScopeStack::new();
    let mut i: usize = 0;
    while i < func.arguments.len()
        invariant
            i <= func.arguments@.len(),
            scope_stack.wf(),
            scope_stack@ == args_scope(func.arguments@, i as nat),
            scope_stack@.current == i,
            func.arguments@.len() + block_decls(func.stmts@, func.stmts@.len()) <= usize::MAX,
            block_resolves(func_scope(*func), func.stmts@),
        decreases func.arguments@.len() - i,
    {
        scope_stack.declare(func.arguments[i].as_str());
        i = i + 1;
    }
    let (stmts, failures) = build_block(globals, &mut scope_stack, &func.stmts);
    let max_locals = scope_stack.get_max_locals();
    proof {
        scope_stack.lemma_wf();
        if failures@.len() == 0 {
            lemma_block_ok_mono(stmts@, globals.names@.len(), scope_stack@.current, scope_stack@.max);
        }
    }
    ((stmts, max_locals), failures)
}

/// Builds and defines every function, in declaration order; fails with every
/// static-analysis error found.
fn build_funcs(globals: &mut Globals, programme: &[ast::Function]) -> (r: Result<(), ExecError>)
    requires
        old(globals).names_seq() == programme_names(programme@),
        old(globals).functions@.len() == 5,
        old(globals).platform_registered(),
        frames_fit(programme@),
        programme_resolves(programme@),
    ensures
        final(globals).names == old(globals).names,
        programme_built(programme@, final(globals).functions@),
        r is Ok <==> programme_errors(programme_names(programme@), programme@, programme@.len()).len()
            == 0,
        r is Ok ==> funcs_wf(final(globals).functions@),
        r matches Err(e) ==> e matches ExecError::StaticAnalysisFailed(errs) && errs@
            == programme_errors(programme_names(programme@), programme@, programme@.len()),
{
    let ghost names = programme_names(programme@);
    let mut failures: Vec<StaticAnalysisError> = Vec::new();
    let mut i: usize = 0;
    while i < programme.len()
        invariant
            i <= programme@.len(),
            frames_fit(programme@),
            programme_resolves(programme@),
            globals.names == old(globals).names,
            globals.names_seq() == names,
            names == programme_names(programme@),
            globals.functions@.len() == 5 + i,
            forall|j: int| 0 <= j < 5 ==> globals.functions@[j] == old(globals).functions@[j],
            old(globals).platform_registered(),
            forall|j: int|
                0 <= j < i ==> func_built(names, #[trigger] programme@[j], globals.functions@[5 + j]),
            failures@ == programme_errors(names, programme@, i as nat),
            failures@.len() == 0 ==> forall|j: int|
                0 <= j < globals.functions@.len() ==> (#[trigger] globals.functions@[j] matches Callable::StarLang(f)
                    ==> block_ok(f.stmts@, names.len(), f.max_locals as nat)),
        decreases programme@.len() - i,
    {
        let ghost prev = failures@;
        assert(programme@[i as int].arguments@.len() + block_decls(
            programme@[i as int].stmts@,
            programme@[i as int].stmts@.len(),
        ) <= usize::MAX);
        let ((stmts, max_locals), mut func_failures) = build_func(globals, &programme[i]);
        let ghost fs = func_failures@;
        assert(names[5 + i as int] == programme@[i as int].name@);
        globals.define_func(programme[i].name.as_str(), stmts, max_locals);
        failures.append(&mut func_failures);
        i = i + 1;
        proof {
            assert(programme_errors(names, programme@, i as nat) == prev + fs);
            if failures@.len() == 0 {
                assert(prev.len() == 0);
            }
        }
    }
    proof {
        assert(names.len() == globals.functions@.len());
        assert forall|j: int| 0 <= j < 5 implies globals.functions@[j] == Callable::Platform(
            platform_functions()[j],
        ) by {
            assert(old(globals).functions@[j] == Callable::Platform(platform_functions()[j]));
        }
    }
    if failures.len() == 0 {
        Ok(())
    } else {
        Err(ExecError::StaticAnalysisFailed(failures))
    }
}

/// The values of a string's characters.
fn string_to_values(s: &String) -> (r: Vec<Value>)
    ensures
        r@ == string_values(s@),
{
    let mut r: Vec<Value> = Vec::new();
    for c in it: s.as_str().chars()
        invariant
            it.seq() == s@,
            r@ == string_values(it.seq().take(it.index() as int)),
    {
        proof {
            assert(string_values(it.seq().take(it.index() + 1)) =~= string_values(
                it.seq().take(it.index() as int),
            ).push(Value::Integer(c as i32)));
        }
        r.push(Value::Integer(c as i32));
    }
    r
}

/// Places the process arguments on the heap as an array of arrays of
/// character codes, and returns the outer array's handle.
fn convert_args_to_values(rt: &mut Runtime, args: &Vec<String>) -> (r: Value)
    requires
        old(rt).wf(),
        old(rt)@.heap.len() == 0,
    ensures
        final(rt).wf(),
        final(rt)@ == (RunState { heap: args_heap(args@), ..old(rt)@ }),
        r == Value::Array(args@.len() as usize),
{
    let mut handles: Vec<Value> = Vec::new();
    let mut i: usize = 0;
    assert(rt@.heap =~= Seq::new(0, |j: int| string_values(args@[j]@)));
    while i < args.len()
        invariant
            i <= args@.len(),
            rt.wf(),
            rt@ == (RunState {
                heap: Seq::new(i as nat, |j: int| string_values(args@[j]@)),
                ..old(rt)@
            }),
            handles@ == Seq::new(i as nat, |j: int| Value::Array(j as usize)),
        decreases args@.len() - i,
    {
        let vals = string_to_values(&args[i]);
        let h = store_array(rt, vals);
        handles.push(h);
        i = i + 1;
        assert(rt@.heap =~= Seq::new(i as nat, |j: int| string_values(args@[j]@)));
        assert(handles@ =~= Seq::new(i as nat, |j: int| Value::Array(j as usize)));
    }
    assert(valid_values(handles@, rt@.heap.len()));
    let outer = store_array(rt, handles);
    assert(rt@.heap =~= args_heap(args@));
    outer
}

/// Runs a program: every function is declared, then built; any
/// static-analysis error stops the run before it starts; otherwise `main` is
/// called with the process arguments.
///
/// The program must define `main` (a driver tests `has_main_function` first)
/// and its names must resolve, as the grammar guarantees. The whole input is
/// handed over before the run, and what the program writes is appended to
/// `output` when it ends: unlike live streams, a program cannot see its
/// output flushed before it reads.
pub fn exec(programme: &[ast::Function], args: Vec<String>, input: Vec<u8>, output: &mut Vec<u8>) -> (r:
    Result<i32, ExecError>)
    requires
        frames_fit(programme@),
        defines_main(programme@),
        programme_resolves(programme@),
    ensures
        programme_errors(
            programme_names(programme@),
            programme@,
            programme@.len(),
        ).len() > 0 ==> final(output)@ == old(output)@ && (r matches Err(
            ExecError::StaticAnalysisFailed(errs),
        ) && errs@ == programme_errors(programme_names(programme@), programme@, programme@.len())),
        programme_errors(
            programme_names(programme@),
            programme@,
            programme@.len(),
        ).len() == 0 ==> exists|funcs: Seq<Callable>|
            #![trigger programme_built(programme@, funcs)]
            programme_built(programme@, funcs) && {
                let (st, res) = call_function(
                    funcs,
                    EVALUATION_FUEL as nat,
                    initial_state(args@, input@),
                    last_index_of(programme_names(programme@), name_main())->0,
                    seq![Value::Array(args@.len() as usize)],
                );
                &&& final(output)@ == old(output)@ + st.output
                &&& reports(r, res)
            },
{
    let mut globals = Globals::new();
    collect_funcs(&mut globals, programme);
    proof {
        let names = programme_names(programme@);
        assert(globals.names_seq() =~= names);
        lemma_last_index_of_exists(names, name_main());
        if defines_main(programme@) {
            let i = choose|i: int| 0 <= i < programme@.len() && #[trigger] programme@[i].name@ == name_main();
            assert(names[5 + i] == name_main());
        }
        if exists|i: int| 0 <= i < names.len() && names[i] == name_main() {
            let i = choose|i: int| 0 <= i < names.len() && names[i] == name_main();
            if i < 5 {
                reveal_strlit("main");
                assert(names[i] != name_main());
            }
            assert(programme@[i - 5].name@ == name_main());
        }
    }
    match build_funcs(&mut globals, programme) {
        Ok(()) => {},
        Err(e) => return Err(e),
    }
    let mut rt = Runtime::new(input);
    let arg = convert_args_to_values(&mut rt, &args);
    let main_id = globals.get_main();
    proof {
        super::base::lemma_last_index_of_bounds(globals.names_seq(), name_main());
    }
    let main_args = vec![arg];
    assert(main_args@ =~= seq![Value::Array(args@.len() as usize)]);
    let res = call_func(&mut rt, &globals, EVALUATION_FUEL, main_id, main_args);
    output.append(&mut rt.output);
    match res {
        Ok(Value::Integer(n)) => Ok(n),
        Ok(Value::Array(_)) => Err(ExecError::RuntimeFailure(RuntimeFailureKind::ExpectedIntGotArray, Vec::new())),
        Err(Abort::Exit(n)) => Ok(n),
        Err(Abort::Failure(kind, trace)) => Err(ExecError::RuntimeFailure(kind, trace)),
    }
}

} // verus!
