//! The two error families: static-analysis errors found while building, and
//! failures found while running.

use vstd::prelude::*;

use super::base::{CodeSite, Expr};
use crate::lexer::Location;

verus! {

/// Why a run stopped with a failure.
#[derive(Clone, Copy, Debug, PartialEq, Eq, Structural)]
pub enum RuntimeFailureKind {
    /// An array was used where an integer is required. This includes an
    /// array handed to `new`, `putc` or `exit`: such a run stops with this
    /// failure rather than aborting the process.
    ExpectedIntGotArray,
    /// An integer was used where an array is required.
    ExpectedArrayGotInt,
    /// A subscript outside the array.
    IndexOutOfBounds,
    /// A division or remainder by zero, or one whose result does not fit.
    InvalidDivision,
    /// A platform function was called without the argument it needs.
    MissingArgument,
    /// `new` was asked for an array of negative length.
    NegativeArrayLength,
    /// The run went deeper, or looped longer, than the evaluator's budget.
    EvaluationLimitReached,
}

/// What the core reports instead of an exit status.
#[derive(Debug, PartialEq)]
pub enum ExecError {
    /// The program was not run: every error the builder found.
    StaticAnalysisFailed(Vec<StaticAnalysisError>),
    /// The run failed; the trace lists the failing site, then each enclosing
    /// call site, innermost first.
    RuntimeFailure(RuntimeFailureKind, Vec<CodeSite>),
}

/// An error found while building: a call to a function that no declaration
/// names, with the callee's name and the span of the call.
#[derive(Debug, PartialEq)]
pub enum StaticAnalysisError {
    CallUnknownFunction(String, Location, Location),
}

/// Why evaluation stopped before a value was produced.
pub enum Abort {
    Failure(RuntimeFailureKind, Vec<CodeSite>),
    Exit(i32),
}

/// The mathematical form of `Abort`.
pub enum AbortView {
    Failure(RuntimeFailureKind, Seq<CodeSite>),
    Exit(i32),
}

impl Abort {
    pub open spec fn view(&self) -> AbortView {
        match self {
            Abort::Failure(k, trace) => AbortView::Failure(*k, trace@),
            Abort::Exit(n) => AbortView::Exit(*n),
        }
    }
}

pub open spec fn result_view<T>(r: Result<T, Abort>) -> Result<T, AbortView> {
    match r {
        Ok(v) => Ok(v),
        Err(a) => Err(a.view()),
    }
}

/// A failure of the given kind at the site of `expr`.
pub fn runtime_failure(kind: RuntimeFailureKind, expr: &Expr) -> (r: Abort)
    ensures
        r.view() == AbortView::Failure(kind, seq![expr.site]),
{
    let trace = vec![expr.site];
    proof {
        assert(trace@ =~= seq![expr.site]);
    }
    Abort::Failure(kind, trace)
}

} // verus!
