//! A plain-value view of the analyzed IR program.
//!
//! The analysis only needs the ordered statement sequence, each statement's
//! operation identity and outgoing branch targets, and the entry point of
//! every function.  Identities are plain integers.

use vstd::prelude::*;

verus! {

/// Identity of a named function within the program.
pub type FunctionId = u64;

/// Identity of a concrete operation ("libfunc") in the program.
pub type LibfuncId = u64;

/// A program point: an index into the ordered statement sequence.
pub type StatementIdx = usize;

/// One outgoing branch target of an invocation statement.
#[derive(Clone, Copy, Debug, PartialEq, Eq, Structural)]
pub enum BranchTarget {
    /// The branch continues at the statement that follows the current one.
    Fallthrough,
    /// The branch jumps to the given statement.
    Statement(StatementIdx),
}

/// One program point: either an invocation of an operation with its outgoing
/// branches, or a return from the enclosing function.
#[derive(Clone, Debug)]
pub enum Statement {
    /// An invocation of the operation `libfunc`, with one entry in `branches`
    /// per outgoing branch.
    Invocation { libfunc: LibfuncId, branches: Vec<BranchTarget> },
    /// A return from the enclosing function.
    Return,
}

/// A function of the program: its identity and the program point where its
/// body starts.
#[derive(Clone, Debug)]
pub struct Function {
    /// The function's identity.
    pub id: FunctionId,
    /// The program point of the function's first statement.
    pub entry_point: StatementIdx,
}

/// The whole program: the ordered statement sequence and the functions
/// defined over it.
#[derive(Clone, Debug)]
pub struct Program {
    /// The ordered statement sequence; a statement's index is its program
    /// point.
    pub statements: Vec<Statement>,
    /// The functions of the program.
    pub funcs: Vec<Function>,
}

/// The program point a branch of the statement at point `idx` jumps to.
pub open spec fn spec_branch_target(idx: int, target: BranchTarget) -> int {
    match target {
        BranchTarget::Fallthrough => idx + 1,
        BranchTarget::Statement(t) => t as int,
    }
}

/// Resolves a branch of the statement at point `idx` to an absolute program
/// point.
pub fn branch_target(idx: StatementIdx, target: &BranchTarget) -> (r: StatementIdx)
    requires
        idx < usize::MAX,
    ensures
        r == spec_branch_target(idx as int, *target),
{
    match target {
        BranchTarget::Fallthrough => idx + 1,
        BranchTarget::Statement(t) => *t,
    }
}

} // verus!
