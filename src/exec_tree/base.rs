//! Values, the executable tree, the function registry, the scope resolver and
//! the run-time state.

use vstd::prelude::*;

use super::error::{result_view, Abort};
use super::expressions::Identifier;
use super::semantics::{block_ok, evolves, funcs_wf, run_block};
use super::statements::do_stmt;
use crate::ast::{self, BinaryOpCode, UnaryOpCode};
use crate::lexer::Location;

verus! {

/// A computed value: an integer, or a handle to an array on the heap. Copying
/// a handle aliases the array.
#[derive(Clone, Copy, Debug, PartialEq, Eq, Structural)]
pub enum Value {
    Integer(i32),
    Array(usize),
}

/// The span of source text an executable node was built from.
#[derive(Clone, Copy, Debug, PartialEq, Eq, Structural)]
pub struct CodeSite {
    pub start: Location,
    pub end: Location,
}

/// The dense identity of a declared function.
#[derive(Clone, Copy, Debug, PartialEq, Eq, Structural)]
pub struct FunctionId {
    pub idx: usize,
}

/// An executable expression with its source span.
pub struct Expr {
    pub node: ExprNode,
    pub site: CodeSite,
}

pub enum ExprNode {
    /// Stands where building failed; never evaluated.
    BadExpr,
    IntegerLiteral(i32),
    /// Character codes; every evaluation allocates a new array.
    StringLiteral(Vec<i32>),
    ArrayLiteral(Vec<Expr>),
    Identifier(Identifier),
    Binary(BinaryOpCode, Box<Expr>, Box<Expr>),
    Unary(UnaryOpCode, Box<Expr>),
    Call(FunctionId, Vec<Expr>),
    /// Array expression, then index expression.
    Subscription(Box<Expr>, Box<Expr>),
}

/// An assignment target.
pub enum LExpr {
    Identifier(Identifier),
    /// Array expression, then index expression.
    Subscription(Box<Expr>, Box<Expr>),
}

pub enum Statement {
    Return(Expr),
    Assign(LExpr, Expr),
    Expr(Expr),
    If(Expr, Vec<Statement>),
    While(Expr, Vec<Statement>),
}

/// How a statement or block finished.
#[derive(Clone, Copy, Debug, PartialEq, Eq, Structural)]
pub enum FunctionState {
    Return(Value),
    NoReturn,
}

/// The frame of one call: one value per slot.
pub struct Locals {
    pub vars: Vec<Value>,
}

/// The built-in functions.
#[derive(Clone, Copy, Debug, PartialEq, Eq, Structural)]
pub enum PlatformFunction {
    New,
    Len,
    Getc,
    Putc,
    Exit,
}

/// A function of the program: its built body and its frame size.
pub struct StarLangFunction {
    pub stmts: Vec<Statement>,
    pub max_locals: usize,
}

pub enum Callable {
    Platform(PlatformFunction),
    StarLang(StarLangFunction),
}

pub open spec fn name_new() -> Seq<char> {
    seq!['n', 'e', 'w']
}

pub open spec fn name_len() -> Seq<char> {
    seq!['l', 'e', 'n']
}

pub open spec fn name_getc() -> Seq<char> {
    seq!['g', 'e', 't', 'c']
}

pub open spec fn name_putc() -> Seq<char> {
    seq!['p', 'u', 't', 'c']
}

pub open spec fn name_exit() -> Seq<char> {
    seq!['e', 'x', 'i', 't']
}

pub open spec fn name_main() -> Seq<char> {
    seq!['m', 'a', 'i', 'n']
}

/// The names of the built-in functions, in the order of their ids.
pub open spec fn platform_names() -> Seq<Seq<char>> {
    seq![name_new(), name_len(), name_getc(), name_putc(), name_exit()]
}

/// The built-in functions, in the order of their ids.
pub open spec fn platform_functions() -> Seq<PlatformFunction> {
    seq![
        PlatformFunction::New,
        PlatformFunction::Len,
        PlatformFunction::Getc,
        PlatformFunction::Putc,
        PlatformFunction::Exit,
    ]
}

pub open spec fn names_view(names: Seq<String>) -> Seq<Seq<char>> {
    Seq::new(names.len(), |i: int| names[i]@)
}

/// The id a name resolves to: its latest declaration.
pub open spec fn last_index_of(names: Seq<Seq<char>>, name: Seq<char>) -> Option<int>
    decreases names.len(),
{
    if names.len() == 0 {
        None
    } else if names.last() == name {
        Some(names.len() - 1)
    } else {
        last_index_of(names.drop_last(), name)
    }
}

pub proof fn lemma_last_index_of_bounds(names: Seq<Seq<char>>, name: Seq<char>)
    ensures
        last_index_of(names, name) matches Some(i) ==> 0 <= i < names.len() && names[i] == name,
    decreases names.len(),
{
    if names.len() > 0 && names.last() != name {
        lemma_last_index_of_bounds(names.drop_last(), name);
    }
}

/// The function registry: the declared names, by id, and the defined bodies,
/// by id. Bodies are defined in the order the ids were given. Every
/// declaration gets an id of its own; a name resolves to its latest
/// declaration, so a later function shadows an earlier one, built-in ones
/// included.
pub struct Globals {
    pub names: Vec<String>,
    pub functions: Vec<Callable>,
}

impl Globals {
    pub open spec fn names_seq(&self) -> Seq<Seq<char>> {
        names_view(self.names@)
    }

    pub open spec fn platform_registered(&self) -> bool {
        &&& self.names@.len() >= 5
        &&& self.functions@.len() >= 5
        &&& forall|i: int| 0 <= i < 5 ==> self.names_seq()[i] == platform_names()[i]
        &&& forall|i: int|
            0 <= i < 5 ==> self.functions@[i] == Callable::Platform(platform_functions()[i])
    }

    /// A registry with the built-in functions only.
    pub fn new() -> (r: Globals)
        ensures
            r.names_seq() == platform_names(),
            r.functions@.len() == 5,
            r.platform_registered(),
    {
        let mut rv = Globals { names: Vec::new(), functions: Vec::new() };
        proof {
            reveal_strlit("new");
            assert("new"@ =~= name_new());
            reveal_strlit("len");
            assert("len"@ =~= name_len());
            reveal_strlit("getc");
            assert("getc"@ =~= name_getc());
            reveal_strlit("putc");
            assert("putc"@ =~= name_putc());
            reveal_strlit("exit");
            assert("exit"@ =~= name_exit());
        }
        rv.define_platform_func("new", PlatformFunction::New);
        rv.define_platform_func("len", PlatformFunction::Len);
        rv.define_platform_func("getc", PlatformFunction::Getc);
        rv.define_platform_func("putc", PlatformFunction::Putc);
        rv.define_platform_func("exit", PlatformFunction::Exit);
        assert(rv.names_seq() =~= platform_names());
        rv
    }

    /// Gives the next id to the function's name.
    pub fn declare_func(&mut self, func: &ast::Function)
        ensures
            final(self).names_seq() == old(self).names_seq().push(func.name@),
            final(self).functions@ == old(self).functions@,
    {
        self.names.push(func.name.clone());
        assert(final(self).names_seq() =~= old(self).names_seq().push(func.name@));
    }

    pub fn has_main(&self) -> (r: bool)
        ensures
            r == (last_index_of(self.names_seq(), name_main()) is Some),
    {
        proof {
            reveal_strlit("main");
            assert("main"@ =~= name_main());
        }
        self.reference_func("main").is_some()
    }

    pub fn get_main(&self) -> (r: FunctionId)
        requires
            last_index_of(self.names_seq(), name_main()) is Some,
        ensures
            last_index_of(self.names_seq(), name_main()) == Some(r.idx as int),
    {
        proof {
            reveal_strlit("main");
            assert("main"@ =~= name_main());
        }
        match self.reference_func("main") {
            Some(id) => id,
            None => FunctionId { idx: 0 },
        }
    }

    /// Attaches a built body to the next declared function that has none.
    pub fn define_func(&mut self, name: &str, stmts: Vec<Statement>, max_locals: usize)
        requires
            old(self).functions@.len() < old(self).names@.len(),
            old(self).names_seq()[old(self).functions@.len() as int] == name@,
        ensures
            final(self).names == old(self).names,
            final(self).functions@ == old(self).functions@.push(
                Callable::StarLang(StarLangFunction { stmts, max_locals }),
            ),
    {
        self.functions.push(Callable::StarLang(StarLangFunction { stmts, max_locals }));
    }

    /// The id of the latest declaration of `name`, if any.
    pub fn reference_func(&self, name: &str) -> (r: Option<FunctionId>)
        ensures
            r matches Some(id) ==> last_index_of(self.names_seq(), name@) == Some(id.idx as int),
            r is None ==> last_index_of(self.names_seq(), name@) is None,
    {
        let key = name.to_owned();
        let mut i = self.names.len();
        assert(self.names_seq().take(i as int) =~= self.names_seq());
        while i > 0
            invariant
                i <= self.names@.len(),
                key@ == name@,
                last_index_of(self.names_seq(), name@) == last_index_of(
                    self.names_seq().take(i as int),
                    name@,
                ),
            decreases i,
        {
            let ghost prefix = self.names_seq().take(i as int);
            assert(prefix.drop_last() =~= self.names_seq().take(i - 1));
            if self.names[i - 1] == key {
                return Some(FunctionId { idx: i - 1 });
            }
            i = i - 1;
        }
        None
    }

    pub fn lookup_func(&self, func_id: FunctionId) -> (r: &Callable)
        requires
            func_id.idx < self.functions@.len(),
        ensures
            *r == self.functions@[func_id.idx as int],
    {
        &self.functions[func_id.idx]
    }

    fn next_func_id(&self) -> (r: FunctionId)
        ensures
            r.idx == self.names@.len(),
    {
        FunctionId { idx: self.names.len() }
    }

    fn define_platform_func(&mut self, name: &str, func: PlatformFunction)
        ensures
            final(self).names_seq() == old(self).names_seq().push(name@),
            final(self).functions@ == old(self).functions@.push(Callable::Platform(func)),
    {
        let _id = self.next_func_id();
        self.names.push(name.to_owned());
        self.functions.push(Callable::Platform(func));
        assert(final(self).names_seq() =~= old(self).names_seq().push(name@));
    }
}

/// The mathematical form of a scope stack: every visible declaration, oldest
/// first; where each open block's declarations begin; the next free slot; and
/// the number of slots the function needs.
pub struct ScopeView {
    pub entries: Seq<(Seq<char>, usize)>,
    pub marks: Seq<usize>,
    pub current: nat,
    pub max: nat,
}

/// The slot of the innermost declaration of `name`.
pub open spec fn lookup_entries(entries: Seq<(Seq<char>, usize)>, name: Seq<char>) -> Option<usize>
    decreases entries.len(),
{
    if entries.len() == 0 {
        None
    } else if entries.last().0 == name {
        Some(entries.last().1)
    } else {
        lookup_entries(entries.drop_last(), name)
    }
}

impl ScopeView {
    pub open spec fn lookup(self, name: Seq<char>) -> Option<usize> {
        lookup_entries(self.entries, name)
    }

    /// The scope after declaring `name` in the innermost block.
    pub open spec fn declare(self, name: Seq<char>) -> ScopeView {
        ScopeView {
            entries: self.entries.push((name, self.current as usize)),
            marks: self.marks,
            current: self.current + 1,
            max: if self.current + 1 > self.max {
                self.current + 1
            } else {
                self.max
            },
        }
    }

    /// The scope after opening a block.
    pub open spec fn open(self) -> ScopeView {
        ScopeView { marks: self.marks.push(self.entries.len() as usize), ..self }
    }

    /// The scope `self` after a block opened in it closed in state `inner`:
    /// the block's names are gone, its slots stay taken.
    pub open spec fn after_block(self, inner: ScopeView) -> ScopeView {
        ScopeView { entries: self.entries, marks: self.marks, current: inner.current, max: inner.max }
    }
}

/// Maps names to frame slots across nested blocks. A slot is never given
/// twice within one function.
pub struct ScopeStack {
    names: Vec<String>,
    slots: Vec<usize>,
    marks: Vec<usize>,
    current_locals: usize,
    max_locals: usize,
}

impl View for ScopeStack {
    type V = ScopeView;

    closed spec fn view(&self) -> ScopeView {
        ScopeView {
            entries: Seq::new(self.names@.len(), |i: int| (self.names@[i]@, self.slots@[i])),
            marks: self.marks@,
            current: self.current_locals as nat,
            max: self.max_locals as nat,
        }
    }
}

impl ScopeStack {
    pub closed spec fn wf(&self) -> bool {
        &&& self.names@.len() == self.slots@.len()
        &&& forall|i: int| 0 <= i < self.slots@.len() ==> self.slots@[i] < self.current_locals
        &&& self.current_locals <= self.max_locals
        &&& forall|i: int| 0 <= i < self.marks@.len() ==> self.marks@[i] <= self.names@.len()
        &&& forall|i: int, j: int|
            0 <= i <= j < self.marks@.len() ==> self.marks@[i] <= self.marks@[j]
    }

    pub proof fn lemma_wf(&self)
        requires
            self.wf(),
        ensures
            self@.current <= self@.max,
            forall|i: int| 0 <= i < self@.entries.len() ==> self@.entries[i].1 < self@.current,
            self@.max <= usize::MAX,
            self@.entries.len() <= usize::MAX,
            forall|i: int| 0 <= i < self@.marks.len() ==> self@.marks[i] <= self@.entries.len(),
    {
        assert(self.names@.len() == self.names.len());
    }

    pub fn new() -> (r: ScopeStack)
        ensures
            r.wf(),
            r@ == (ScopeView { entries: seq![], marks: seq![], current: 0, max: 0 }),
    {
        let r = ScopeStack {
            names: Vec::new(),
            slots: Vec::new(),
            marks: Vec::new(),
            current_locals: 0,
            max_locals: 0,
        };
        assert(r@.entries =~= seq![]);
        r
    }

    /// Gives `name` the next free slot in the innermost block.
    pub fn declare(&mut self, name: &str) -> (r: usize)
        requires
            old(self).wf(),
            old(self)@.current < usize::MAX,
        ensures
            final(self).wf(),
            r == old(self)@.current,
            final(self)@ == old(self)@.declare(name@),
    {
        let rv = self.current_locals;
        self.current_locals = self.current_locals + 1;
        if self.current_locals > self.max_locals {
            self.max_locals = self.current_locals;
        }
        self.names.push(name.to_owned());
        self.slots.push(rv);
        assert(final(self)@.entries =~= old(self)@.entries.push((name@, rv)));
        rv
    }

    /// The slot of the innermost visible declaration of `name`, if any.
    pub fn find(&self, name: &str) -> (r: Option<usize>)
        requires
            self.wf(),
        ensures
            r == self@.lookup(name@),
            r matches Some(s) ==> s < self@.current,
    {
        let key = name.to_owned();
        let mut i = self.names.len();
        assert(self@.entries.take(i as int) =~= self@.entries);
        while i > 0
            invariant
                self.wf(),
                i <= self.names@.len(),
                key@ == name@,
                self@.lookup(name@) == lookup_entries(self@.entries.take(i as int), name@),
            decreases i,
        {
            assert(self@.entries.take(i as int).drop_last() =~= self@.entries.take(i - 1));
            if self.names[i - 1] == key {
                return Some(self.slots[i - 1]);
            }
            i = i - 1;
        }
        None
    }

    /// The slot of the innermost visible declaration of `name`, which must be
    /// in scope.
    pub fn get(&self, name: &str) -> (r: usize)
        requires
            self.wf(),
            self@.lookup(name@) is Some,
        ensures
            r == self@.lookup(name@)->0,
            r < self@.current,
    {
        match self.find(name) {
            Some(slot) => slot,
            None => 0,
        }
    }

    /// Opens a block.
    pub fn open_scope(&mut self)
        requires
            old(self).wf(),
        ensures
            final(self).wf(),
            final(self)@ == old(self)@.open(),
    {
        self.marks.push(self.names.len());
    }

    /// Closes the innermost block: its names go out of scope; their slots stay
    /// taken.
    pub fn close_scope(&mut self)
        requires
            old(self).wf(),
            old(self)@.marks.len() > 0,
        ensures
            final(self).wf(),
            final(self)@ == (ScopeView {
                entries: old(self)@.entries.take(old(self)@.marks.last() as int),
                marks: old(self)@.marks.drop_last(),
                ..old(self)@
            }),
    {
        let mark = self.marks.pop().unwrap();
        self.names.truncate(mark);
        self.slots.truncate(mark);
        assert(final(self)@.entries =~= old(self)@.entries.take(mark as int));
        assert(final(self)@.marks =~= old(self)@.marks.drop_last());
    }

    pub fn get_max_locals(&self) -> (r: usize)
        ensures
            r == self@.max,
    {
        self.max_locals
    }
}

/// The mathematical form of the run-time state: the heap of arrays, indexed by
/// handle; the input and how much of it was read; the output so far.
pub struct RunState {
    pub heap: Seq<Seq<Value>>,
    pub input: Seq<u8>,
    pub input_pos: nat,
    pub output: Seq<u8>,
}

/// The run-time state: arrays live as long as the run.
pub struct Runtime {
    pub heap: Vec<Vec<Value>>,
    pub input: Vec<u8>,
    pub input_pos: usize,
    pub output: Vec<u8>,
}

pub open spec fn heap_view(heap: Seq<Vec<Value>>) -> Seq<Seq<Value>> {
    Seq::new(heap.len(), |i: int| heap[i]@)
}

/// A value whose handle, if any, names an array of a heap of `n` arrays.
pub open spec fn valid_value(v: Value, n: nat) -> bool {
    v matches Value::Array(id) ==> id < n
}

pub open spec fn valid_values(vs: Seq<Value>, n: nat) -> bool {
    forall|i: int| 0 <= i < vs.len() ==> valid_value(#[trigger] vs[i], n)
}

pub open spec fn heap_wf(heap: Seq<Seq<Value>>) -> bool {
    forall|i: int| 0 <= i < heap.len() ==> valid_values(#[trigger] heap[i], heap.len())
}

impl View for Runtime {
    type V = RunState;

    open spec fn view(&self) -> RunState {
        RunState {
            heap: heap_view(self.heap@),
            input: self.input@,
            input_pos: self.input_pos as nat,
            output: self.output@,
        }
    }
}

impl Runtime {
    pub open spec fn wf(&self) -> bool {
        &&& heap_wf(self@.heap)
        &&& self.input_pos <= self.input@.len()
    }

    /// A run-time state with an empty heap and output.
    pub fn new(input: Vec<u8>) -> (r: Runtime)
        ensures
            r.wf(),
            r@ == (RunState { heap: seq![], input: input@, input_pos: 0, output: seq![] }),
    {
        let r = Runtime { heap: Vec::new(), input, input_pos: 0, output: Vec::new() };
        assert(r@.heap =~= seq![]);
        r
    }
}

/// Runs the statements of a block in order, until one returns or fails.
pub fn exec_block(
    rt: &mut Runtime,
    globals: &Globals,
    fuel: u64,
    locals: &mut Locals,
    stmts: &Vec<Statement>,
) -> (r: Result<FunctionState, Abort>)
    requires
        old(rt).wf(),
        funcs_wf(globals.functions@),
        block_ok(stmts@, globals.functions@.len(), old(locals).vars@.len()),
        valid_values(old(locals).vars@, old(rt)@.heap.len()),
    ensures
        final(rt).wf(),
        evolves(old(rt)@, final(rt)@),
        (final(rt)@, final(locals).vars@, result_view(r)) == run_block(
            globals.functions@,
            fuel as nat,
            old(rt)@,
            old(locals).vars@,
            stmts@,
            0,
        ),
        final(locals).vars@.len() == old(locals).vars@.len(),
        valid_values(final(locals).vars@, final(rt)@.heap.len()),
        r matches Ok(FunctionState::Return(v)) ==> valid_value(v, final(rt)@.heap.len()),
    decreases fuel, 2nat, stmts, 0nat,
{
    let mut i: usize = 0;
    while i < stmts.len()
        invariant
            i <= stmts@.len(),
            rt.wf(),
            funcs_wf(globals.functions@),
            block_ok(stmts@, globals.functions@.len(), locals.vars@.len()),
            valid_values(locals.vars@, rt@.heap.len()),
            locals.vars@.len() == old(locals).vars@.len(),
            evolves(old(rt)@, rt@),
            run_block(globals.functions@, fuel as nat, old(rt)@, old(locals).vars@, stmts@, 0)
                == run_block(globals.functions@, fuel as nat, rt@, locals.vars@, stmts@, i as nat),
        decreases stmts@.len() - i,
    {
        match do_stmt(rt, globals, fuel, locals, &stmts[i]) {
            Ok(FunctionState::NoReturn) => {},
            other => return other,
        }
        i = i + 1;
    }
    Ok(FunctionState::NoReturn)
}

} // verus!
