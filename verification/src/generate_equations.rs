//! The equation generator: the algorithmic heart of the analysis.
//!
//! The generator walks the statements in increasing program-point order.
//! For every program point it tracks, symbolically, the `ap` movement since
//! the enclosing function's entry (a constant plus unknown variables, or
//! nothing when an unknown move was crossed) and the number of local cells
//! reserved so far.  A function entry starts the tracking at zero.  A
//! branch propagates the tracking to its target; when the target was
//! already reached on another path, the two paths' trackings are equated by
//! emitted equations instead.  A statement that is reached by no entry and
//! no earlier branch is reported out of order; a branch target at or past
//! the end of the sequence is reported out of bounds.
//!
//! Conventions this implementation documents explicitly:
//! - A backward branch is allowed; since its target was already walked, it
//!   always equates the loop path with the tracking recorded there.
//! - When paths from two different functions merge, the merged point keeps
//!   the first function's tracking and an equation forces the two
//!   functions' overall `ap` changes to agree, which makes the shared
//!   suffix consistent for both.
//! - A path whose `ap` movement became unknown contributes no `ap`
//!   equations (its locals count still must agree at merges); a return on
//!   such a path leaves the function's overall change unconstrained.

use vstd::prelude::*;

use crate::expr::{views_of, LinExpr, LinExprV, Var};
use crate::program::{
    branch_target, spec_branch_target, BranchTarget, Function, FunctionId, Program, Statement,
    StatementIdx,
};
use crate::{spec_effect_of, ApChange, ApChangeClassifier, ApChangeError, ClassifierError, Effects};

verus! {

/// Largest statement count the analysis accepts; together with
/// [`MAX_AP_STEP`] it keeps every constant term far away from overflowing
/// the solver's 32-bit constants.
pub const MAX_STATEMENTS: usize = 0x4000;

/// Largest single-step known `ap` move or locals reservation the analysis
/// accepts from a classifier.
pub const MAX_AP_STEP: usize = 0x4000;

/// The symbolic `ap` movement along one path: a constant number of cells
/// plus one cell count per listed unknown variable.
#[verifier::ext_equal]
pub ghost struct PathExprV {
    pub const_term: int,
    pub vars: Seq<Var>,
}

/// What the walk knows about one program point.
#[verifier::ext_equal]
pub ghost struct InfoV {
    /// The function whose entry the tracking is relative to.
    pub func: FunctionId,
    /// The `ap` movement since that entry, or `None` after an unknown move.
    pub ap: Option<PathExprV>,
    /// The local cells reserved since that entry.
    pub locals: int,
}

/// The generator's state: per-point tracking and the equations emitted so
/// far.
#[verifier::ext_equal]
pub ghost struct GenStateV {
    pub infos: Seq<Option<InfoV>>,
    pub equations: Seq<LinExprV>,
}

/// Adds a constant move to a tracked path.
pub open spec fn add_const(ap: Option<PathExprV>, k: int) -> Option<PathExprV> {
    match ap {
        None => None,
        Some(p) => Some(PathExprV { const_term: p.const_term + k, vars: p.vars }),
    }
}

/// Adds an unknown variable's move to a tracked path.
pub open spec fn add_var(ap: Option<PathExprV>, v: Var) -> Option<PathExprV> {
    match ap {
        None => None,
        Some(p) => Some(PathExprV { const_term: p.const_term, vars: p.vars.push(v) }),
    }
}

/// The equations that force two trackings of the same program point to
/// agree: their locals counts, their `ap` movements, and, across two
/// functions, the functions' overall `ap` changes.
pub open spec fn merge_equations(prev: InfoV, new: InfoV) -> Seq<LinExprV> {
    let locals_eqs: Seq<LinExprV> = if prev.locals == new.locals {
        seq![]
    } else {
        seq![LinExprV { const_term: prev.locals - new.locals, plus: seq![], minus: seq![] }]
    };
    let ap_eqs: Seq<LinExprV> = match (prev.ap, new.ap) {
        (Some(x), Some(y)) => {
            let diff = seq![
                LinExprV {
                    const_term: x.const_term - y.const_term,
                    plus: x.vars,
                    minus: y.vars,
                },
            ];
            if prev.func == new.func {
                diff
            } else {
                diff + seq![
                    LinExprV {
                        const_term: 0,
                        plus: seq![Var::FunctionApChange(prev.func)],
                        minus: seq![Var::FunctionApChange(new.func)],
                    },
                ]
            }
        },
        _ => seq![],
    };
    locals_eqs + ap_eqs
}

/// Records a tracking for a program point: the first tracking is stored;
/// any later one is equated with the stored one.
pub open spec fn spec_set_or_merge(st: GenStateV, t: int, info: InfoV) -> GenStateV {
    match st.infos[t] {
        None => GenStateV { infos: st.infos.update(t, Some(info)), equations: st.equations },
        Some(prev) => GenStateV {
            infos: st.infos,
            equations: st.equations + merge_equations(prev, info),
        },
    }
}

/// Processes one branch of the invocation at point `idx`: validates the
/// target, applies the branch's effects to the source tracking, and records
/// the result at the target.
pub open spec fn spec_branch_step(
    st: GenStateV,
    idx: int,
    n: int,
    src: InfoV,
    target: BranchTarget,
    change: ApChange,
) -> Result<GenStateV, ApChangeError> {
    let eff = spec_effect_of(change);
    let t = spec_branch_target(idx, target);
    if !(0 <= t < n) {
        Err(ApChangeError::StatementOutOfBounds(t as usize))
    } else {
        let locals = src.locals + eff.locals;
        let st1 = match eff.ap_change {
            ApChange::FinalizeLocals => GenStateV {
                infos: st.infos,
                equations: st.equations.push(
                    LinExprV {
                        const_term: -src.locals,
                        plus: seq![Var::LibfuncImplicitApChangeVariable(idx as usize)],
                        minus: seq![],
                    },
                ),
            },
            _ => st,
        };
        let ap = match eff.ap_change {
            ApChange::Unknown => None,
            ApChange::Known(k) => add_const(src.ap, k as int),
            ApChange::FromMetadata => add_var(
                src.ap,
                Var::LibfuncImplicitApChangeVariable(idx as usize),
            ),
            ApChange::AtLocalsFinalization(_) => add_const(src.ap, 0),
            ApChange::FunctionCall(f) => add_var(src.ap, Var::FunctionApChange(f)),
            ApChange::FinalizeLocals => add_var(
                src.ap,
                Var::LibfuncImplicitApChangeVariable(idx as usize),
            ),
        };
        Ok(spec_set_or_merge(st1, t, InfoV { func: src.func, ap, locals }))
    }
}

/// Processes the first `k` branches of the invocation at point `idx`.
pub open spec fn spec_branches_upto(
    st: GenStateV,
    idx: int,
    n: int,
    src: InfoV,
    branches: Seq<BranchTarget>,
    changes: Seq<ApChange>,
    k: int,
) -> Result<GenStateV, ApChangeError>
    decreases k,
{
    if k <= 0 {
        Ok(st)
    } else {
        match spec_branches_upto(st, idx, n, src, branches, changes, k - 1) {
            Err(e) => Err(e),
            Ok(s) => spec_branch_step(s, idx, n, src, branches[k - 1], changes[k - 1]),
        }
    }
}

/// Processes the statement at point `idx`: a return equates the tracked
/// `ap` movement with the enclosing function's overall change; an
/// invocation classifies the operation and processes every branch.
pub open spec fn spec_statement_step<C: ApChangeClassifier>(
    p: Program,
    c: C,
    st: GenStateV,
    idx: int,
) -> Result<GenStateV, ApChangeError> {
    match st.infos[idx] {
        None => Err(ApChangeError::StatementOutOfOrder(idx as usize)),
        Some(info) => match p.statements@[idx] {
            Statement::Return => Ok(
                match info.ap {
                    None => st,
                    Some(x) => GenStateV {
                        infos: st.infos,
                        equations: st.equations.push(
                            LinExprV {
                                const_term: x.const_term,
                                plus: x.vars,
                                minus: seq![Var::FunctionApChange(info.func)],
                            },
                        ),
                    },
                },
            ),
            Statement::Invocation { libfunc, branches } => match c.spec_classify(libfunc) {
                Err(ClassifierError::Lookup(e)) => Err(ApChangeError::ProgramRegistryError(e)),
                Err(ClassifierError::Unsupported) => Err(
                    ApChangeError::IllegalInvocation(idx as usize),
                ),
                Ok(changes) => if changes.len() != branches@.len() {
                    Err(ApChangeError::IllegalInvocation(idx as usize))
                } else {
                    spec_branches_upto(
                        st,
                        idx,
                        p.statements@.len() as int,
                        info,
                        branches@,
                        changes,
                        branches@.len() as int,
                    )
                },
            },
        },
    }
}

/// Starts a function's tracking at its entry point: zero `ap` movement,
/// zero locals.
pub open spec fn spec_entry_step(st: GenStateV, n: int, f: Function) -> Result<
    GenStateV,
    ApChangeError,
> {
    if f.entry_point >= n {
        Err(ApChangeError::StatementOutOfBounds(f.entry_point))
    } else {
        Ok(
            spec_set_or_merge(
                st,
                f.entry_point as int,
                InfoV { func: f.id, ap: Some(PathExprV { const_term: 0, vars: seq![] }), locals: 0 },
            ),
        )
    }
}

/// Registers the first `j` functions' entry points.
pub open spec fn spec_entries_upto(p: Program, j: int) -> Result<GenStateV, ApChangeError>
    decreases j,
{
    if j <= 0 {
        Ok(
            GenStateV {
                infos: Seq::new(p.statements@.len() as nat, |i: int| None),
                equations: seq![],
            },
        )
    } else {
        match spec_entries_upto(p, j - 1) {
            Err(e) => Err(e),
            Ok(s) => spec_entry_step(s, p.statements@.len() as int, p.funcs@[j - 1]),
        }
    }
}

/// The generator's state after registering every entry point and walking
/// the first `i` statements.
pub open spec fn spec_gen_upto<C: ApChangeClassifier>(p: Program, c: C, i: int) -> Result<
    GenStateV,
    ApChangeError,
>
    decreases i,
{
    if i <= 0 {
        spec_entries_upto(p, p.funcs@.len() as int)
    } else {
        match spec_gen_upto(p, c, i - 1) {
            Err(e) => Err(e),
            Ok(s) => spec_statement_step(p, c, s, i - 1),
        }
    }
}

/// The full equation system the generator emits for a program under a
/// classifier, or the error that stops it.
pub open spec fn spec_generate<C: ApChangeClassifier>(p: Program, c: C) -> Result<
    Seq<LinExprV>,
    ApChangeError,
> {
    match spec_gen_upto(p, c, p.statements@.len() as int) {
        Err(e) => Err(e),
        Ok(st) => Ok(st.equations),
    }
}

/// Whether one classification stays within the accepted step bound.
pub open spec fn bounded_change(c: ApChange) -> bool {
    match c {
        ApChange::Known(n) => n <= MAX_AP_STEP,
        ApChange::AtLocalsFinalization(n) => n <= MAX_AP_STEP,
        _ => true,
    }
}

/// Whether every classification a classifier can produce stays within the
/// accepted step bound.
pub open spec fn bounded_classifier<C: ApChangeClassifier>(c: C) -> bool {
    forall|l: crate::program::LibfuncId| match #[trigger] c.spec_classify(l) {
        Ok(s) => forall|i: int| 0 <= i < s.len() ==> bounded_change(#[trigger] s[i]),
        Err(_) => true,
    }
}

/// Size bounds on a tracked path at program point `j`.
pub open spec fn wf_path(x: PathExprV, j: int) -> bool {
    &&& 0 <= x.const_term <= j * (MAX_AP_STEP as int)
    &&& x.vars.len() <= j
}

/// Size bounds on a program point's tracking.
pub open spec fn wf_info(info: InfoV, j: int) -> bool {
    &&& (info.ap matches Some(x) ==> wf_path(x, j))
    &&& 0 <= info.locals <= j * (MAX_AP_STEP as int)
}

/// Size bounds on an emitted equation for a program of `n` statements.
pub open spec fn wf_eq_lens(e: LinExprV, n: int) -> bool {
    e.plus.len() <= n + 1 && e.minus.len() <= n + 1
}

/// The generator state invariant after walking the first `upto` statements
/// of a program of `n` statements.
pub open spec fn wf_state(st: GenStateV, upto: int, n: int) -> bool {
    &&& st.infos.len() == n
    &&& forall|j: int|
        0 <= j < n ==> ((#[trigger] st.infos[j]) matches Some(info) ==> wf_info(info, j))
    &&& forall|j: int| 0 <= j < upto ==> (#[trigger] st.infos[j]) is Some
    &&& forall|k: int| 0 <= k < st.equations.len() ==> wf_eq_lens(#[trigger] st.equations[k], n)
}

/// Loose bounds a tracking satisfies at any point of an accepted program.
pub open spec fn bounded_info(info: InfoV) -> bool {
    &&& (info.ap matches Some(x) ==> 0 <= x.const_term <= 0x10000000 && x.vars.len()
        <= MAX_STATEMENTS + 1)
    &&& 0 <= info.locals <= 0x10000000
}

/// A tracking well-formed for any point of an accepted program is bounded.
proof fn lemma_wf_info_bounded(info: InfoV, j: int)
    requires
        wf_info(info, j),
        0 <= j <= MAX_STATEMENTS,
    ensures
        bounded_info(info),
{
}

/// Once the walk has failed, walking further reports the same failure.
pub proof fn lemma_gen_upto_persists<C: ApChangeClassifier>(p: Program, c: C, i: int, m: int)
    requires
        0 <= i <= m,
        spec_gen_upto(p, c, i) is Err,
    ensures
        spec_gen_upto(p, c, m) == spec_gen_upto(p, c, i),
    decreases m,
{
    if m > i {
        lemma_gen_upto_persists(p, c, i, m - 1);
    }
}

/// Once entry registration has failed, registering further entries reports
/// the same failure.
pub proof fn lemma_entries_upto_persists(p: Program, j: int, m: int)
    requires
        0 <= j <= m,
        spec_entries_upto(p, j) is Err,
    ensures
        spec_entries_upto(p, m) == spec_entries_upto(p, j),
    decreases m,
{
    if m > j {
        lemma_entries_upto_persists(p, j, m - 1);
    }
}

/// Once a branch of a statement has failed, the remaining branches report
/// the same failure.
pub proof fn lemma_branches_upto_persists(
    st: GenStateV,
    idx: int,
    n: int,
    src: InfoV,
    branches: Seq<BranchTarget>,
    changes: Seq<ApChange>,
    k: int,
    m: int,
)
    requires
        0 <= k <= m,
        spec_branches_upto(st, idx, n, src, branches, changes, k) is Err,
    ensures
        spec_branches_upto(st, idx, n, src, branches, changes, m) == spec_branches_upto(
            st,
            idx,
            n,
            src,
            branches,
            changes,
            k,
        ),
    decreases m,
{
    if m > k {
        lemma_branches_upto_persists(st, idx, n, src, branches, changes, k, m - 1);
    }
}

/// One unfolding step of the branch fold.
pub proof fn lemma_branches_upto_step(
    st: GenStateV,
    idx: int,
    n: int,
    src: InfoV,
    branches: Seq<BranchTarget>,
    changes: Seq<ApChange>,
    k: int,
)
    requires
        k >= 0,
    ensures
        spec_branches_upto(st, idx, n, src, branches, changes, k + 1) == (match spec_branches_upto(
            st,
            idx,
            n,
            src,
            branches,
            changes,
            k,
        ) {
            Err(e) => Err(e),
            Ok(s) => spec_branch_step(s, idx, n, src, branches[k], changes[k]),
        }),
{
}

/// One unfolding step of the statement walk.
pub proof fn lemma_gen_upto_step<C: ApChangeClassifier>(p: Program, c: C, i: int)
    requires
        i >= 0,
    ensures
        spec_gen_upto(p, c, i + 1) == (match spec_gen_upto(p, c, i) {
            Err(e) => Err(e),
            Ok(s) => spec_statement_step(p, c, s, i),
        }),
{
}

/// Recording a bounded tracking keeps the state invariant.
proof fn lemma_set_or_merge_wf(st: GenStateV, upto: int, n: int, t: int, info: InfoV)
    requires
        wf_state(st, upto, n),
        0 <= t < n,
        st.infos[t] is None ==> wf_info(info, t),
        info.ap matches Some(x) ==> x.vars.len() <= n + 1,
    ensures
        wf_state(spec_set_or_merge(st, t, info), upto, n),
        forall|j: int|
            0 <= j < n && (#[trigger] st.infos[j]) is Some ==> spec_set_or_merge(
                st,
                t,
                info,
            ).infos[j] is Some,
        spec_set_or_merge(st, t, info).infos[t] is Some,
{
    let r = spec_set_or_merge(st, t, info);
    match st.infos[t] {
        None => {},
        Some(prev) => {
            assert(wf_info(prev, t));
            let m = merge_equations(prev, info);
            assert(forall|k: int|
                0 <= k < m.len() ==> wf_eq_lens(#[trigger] m[k], n)) by {
                assert(t <= n);
            }
            assert(forall|k: int| 0 <= k < r.equations.len() ==> wf_eq_lens(
                #[trigger] r.equations[k],
                n,
            )) by {
                assert(forall|k: int|
                    0 <= k < st.equations.len() ==> r.equations[k] == st.equations[k]);
                assert(forall|k: int|
                    st.equations.len() <= k < r.equations.len() ==> r.equations[k] == m[k
                        - st.equations.len()]);
            }
        },
    }
}

/// One branch step keeps the state invariant.
proof fn lemma_branch_step_wf(
    st: GenStateV,
    idx: int,
    n: int,
    src: InfoV,
    target: BranchTarget,
    change: ApChange,
)
    requires
        wf_state(st, idx, n),
        st.infos[idx] is Some,
        0 <= idx < n,
        n <= MAX_STATEMENTS,
        wf_info(src, idx),
        bounded_change(change),
    ensures
        spec_branch_step(st, idx, n, src, target, change) matches Ok(s2) ==> wf_state(s2, idx, n)
            && s2.infos[idx] is Some,
{
    let eff = spec_effect_of(change);
    let t = spec_branch_target(idx, target);
    if 0 <= t < n {
        let st1 = match eff.ap_change {
            ApChange::FinalizeLocals => GenStateV {
                infos: st.infos,
                equations: st.equations.push(
                    LinExprV {
                        const_term: -src.locals,
                        plus: seq![Var::LibfuncImplicitApChangeVariable(idx as usize)],
                        minus: seq![],
                    },
                ),
            },
            _ => st,
        };
        assert(wf_state(st1, idx, n));
        let ap = match eff.ap_change {
            ApChange::Unknown => None,
            ApChange::Known(k) => add_const(src.ap, k as int),
            ApChange::FromMetadata => add_var(
                src.ap,
                Var::LibfuncImplicitApChangeVariable(idx as usize),
            ),
            ApChange::AtLocalsFinalization(_) => add_const(src.ap, 0),
            ApChange::FunctionCall(f) => add_var(src.ap, Var::FunctionApChange(f)),
            ApChange::FinalizeLocals => add_var(
                src.ap,
                Var::LibfuncImplicitApChangeVariable(idx as usize),
            ),
        };
        let info = InfoV { func: src.func, ap, locals: src.locals + eff.locals };
        if st1.infos[t] is None {
            assert(t > idx);
            assert(wf_info(info, t)) by {
                assert((idx + 1) * (MAX_AP_STEP as int) <= t * (MAX_AP_STEP as int)) by (
                nonlinear_arith)
                    requires
                        idx + 1 <= t,
                ;
                assert(idx * (MAX_AP_STEP as int) + (MAX_AP_STEP as int) == (idx + 1) * (
                MAX_AP_STEP as int)) by (nonlinear_arith);
            }
        }
        lemma_set_or_merge_wf(st1, idx, n, t, info);
    }
}

/// Processing any prefix of a statement's branches keeps the state
/// invariant.
proof fn lemma_branches_upto_wf(
    st: GenStateV,
    idx: int,
    n: int,
    src: InfoV,
    branches: Seq<BranchTarget>,
    changes: Seq<ApChange>,
    k: int,
)
    requires
        wf_state(st, idx, n),
        st.infos[idx] is Some,
        0 <= idx < n,
        n <= MAX_STATEMENTS,
        wf_info(src, idx),
        forall|i: int| 0 <= i < changes.len() ==> bounded_change(#[trigger] changes[i]),
        k <= changes.len(),
    ensures
        spec_branches_upto(st, idx, n, src, branches, changes, k) matches Ok(s2) ==> wf_state(
            s2,
            idx,
            n,
        ) && s2.infos[idx] is Some,
    decreases k,
{
    if k > 0 {
        lemma_branches_upto_wf(st, idx, n, src, branches, changes, k - 1);
        match spec_branches_upto(st, idx, n, src, branches, changes, k - 1) {
            Err(_) => {},
            Ok(s) => {
                lemma_branch_step_wf(s, idx, n, src, branches[k - 1], changes[k - 1]);
            },
        }
    }
}

/// One statement step takes the invariant one point further.
proof fn lemma_statement_step_wf<C: ApChangeClassifier>(p: Program, c: C, st: GenStateV, idx: int)
    requires
        wf_state(st, idx, p.statements@.len() as int),
        0 <= idx < p.statements@.len(),
        p.statements@.len() <= MAX_STATEMENTS,
        bounded_classifier(c),
    ensures
        spec_statement_step(p, c, st, idx) matches Ok(s2) ==> wf_state(
            s2,
            idx + 1,
            p.statements@.len() as int,
        ),
{
    let n = p.statements@.len() as int;
    match st.infos[idx] {
        None => {},
        Some(info) => {
            assert(wf_info(info, idx));
            match p.statements@[idx] {
                Statement::Return => {},
                Statement::Invocation { libfunc, branches } => {
                    match c.spec_classify(libfunc) {
                        Err(_) => {},
                        Ok(changes) => {
                            assert(forall|i: int|
                                0 <= i < changes.len() ==> bounded_change(#[trigger] changes[i]));
                            if changes.len() == branches@.len() {
                                lemma_branches_upto_wf(
                                    st,
                                    idx,
                                    n,
                                    info,
                                    branches@,
                                    changes,
                                    branches@.len() as int,
                                );
                            }
                        },
                    }
                },
            }
        },
    }
}

/// Registering any prefix of the entry points establishes the invariant.
proof fn lemma_entries_upto_wf(p: Program, j: int)
    requires
        0 <= j,
    ensures
        spec_entries_upto(p, j) matches Ok(st) ==> wf_state(st, 0, p.statements@.len() as int),
    decreases j,
{
    let n = p.statements@.len() as int;
    if j <= 0 {
        let st = GenStateV {
            infos: Seq::new(p.statements@.len() as nat, |i: int| None::<InfoV>),
            equations: seq![],
        };
        assert(wf_state(st, 0, n));
    } else {
        lemma_entries_upto_wf(p, j - 1);
        match spec_entries_upto(p, j - 1) {
            Err(_) => {},
            Ok(s) => {
                let f = p.funcs@[j - 1];
                if (f.entry_point as int) < n {
                    let info = InfoV {
                        func: f.id,
                        ap: Some(PathExprV { const_term: 0, vars: seq![] }),
                        locals: 0,
                    };
                    assert(wf_info(info, f.entry_point as int)) by {
                        assert(0 <= (f.entry_point as int) * (MAX_AP_STEP as int)) by (
                        nonlinear_arith)
                            requires
                                0 <= f.entry_point as int,
                        ;
                    }
                    lemma_set_or_merge_wf(s, 0, n, f.entry_point as int, info);
                }
            },
        }
    }
}

/// Walking any prefix of the statements keeps the state invariant.
pub proof fn lemma_gen_upto_wf<C: ApChangeClassifier>(p: Program, c: C, i: int)
    requires
        0 <= i <= p.statements@.len(),
        p.statements@.len() <= MAX_STATEMENTS,
        bounded_classifier(c),
    ensures
        spec_gen_upto(p, c, i) matches Ok(st) ==> wf_state(st, i, p.statements@.len() as int),
    decreases i,
{
    if i <= 0 {
        lemma_entries_upto_wf(p, p.funcs@.len() as int);
    } else {
        lemma_gen_upto_wf(p, c, i - 1);
        match spec_gen_upto(p, c, i - 1) {
            Err(_) => {},
            Ok(s) => {
                lemma_statement_step_wf(p, c, s, i - 1);
            },
        }
    }
}

/// Every tracking stored in a well-formed state is bounded.
proof fn lemma_state_infos_bounded(st: GenStateV, upto: int, n: int)
    requires
        wf_state(st, upto, n),
        n <= MAX_STATEMENTS,
    ensures
        forall|j: int|
            0 <= j < st.infos.len() ==> ((#[trigger] st.infos[j]) matches Some(i) ==> bounded_info(
                i,
            )),
{
    assert forall|j: int|
        0 <= j < st.infos.len() && (#[trigger] st.infos[j]) is Some implies bounded_info(
        st.infos[j].unwrap(),
    ) by {
        lemma_wf_info_bounded(st.infos[j].unwrap(), j);
    }
}

/// The symbolic `ap` movement along one path, as the walk computes it.
struct PathExpr {
    const_term: i32,
    vars: Vec<Var>,
}

impl View for PathExpr {
    type V = PathExprV;

    closed spec fn view(&self) -> PathExprV {
        PathExprV { const_term: self.const_term as int, vars: self.vars@ }
    }
}

/// What the walk knows about one program point, as it computes it.
struct Info {
    func: FunctionId,
    ap: Option<PathExpr>,
    locals: usize,
}

spec fn view_info_opt(o: Option<Info>) -> Option<InfoV> {
    match o {
        Option::None => None,
        Option::Some(x) => Some(x@),
    }
}

impl View for Info {
    type V = InfoV;

    closed spec fn view(&self) -> InfoV {
        InfoV {
            func: self.func,
            ap: match self.ap {
                Option::None => None,
                Option::Some(p) => Some(p@),
            },
            locals: self.locals as int,
        }
    }
}

/// The generator's working state.
struct GenState {
    infos: Vec<Option<Info>>,
    equations: Vec<LinExpr>,
}

impl View for GenState {
    type V = GenStateV;

    closed spec fn view(&self) -> GenStateV {
        GenStateV {
            infos: self.infos@.map_values(|o: Option<Info>| view_info_opt(o)),
            equations: views_of(self.equations@),
        }
    }
}

/// Copies a list of variable occurrences.
fn copy_vars(v: &Vec<Var>) -> (r: Vec<Var>)
    ensures
        r@ == v@,
{
    let mut r: Vec<Var> = Vec::new();
    let mut i: usize = 0;
    while i < v.len()
        invariant
            i <= v@.len(),
            r@ == v@.take(i as int),
        decreases v@.len() - i,
    {
        r.push(v[i]);
        proof {
            assert(v@.take(i as int + 1) =~= v@.take(i as int).push(v@[i as int]));
        }
        i = i + 1;
    }
    proof {
        assert(v@.take(v@.len() as int) =~= v@);
    }
    r
}

/// Copies a tracked path.
fn copy_path(p: &PathExpr) -> (r: PathExpr)
    ensures
        r@ == p@,
{
    PathExpr { const_term: p.const_term, vars: copy_vars(&p.vars) }
}

/// Copies a program point's tracking.
fn copy_info(info: &Info) -> (r: Info)
    ensures
        r@ == info@,
{
    Info {
        func: info.func,
        ap: match &info.ap {
            None => None,
            Some(p) => Some(copy_path(p)),
        },
        locals: info.locals,
    }
}

/// Records a tracking for a program point: stores the first, equates any
/// later one with the stored one.
fn set_or_merge(st: &mut GenState, t: usize, info: Info)
    requires
        (t as int) < old(st)@.infos.len(),
        bounded_info(info@),
        forall|j: int|
            0 <= j < old(st)@.infos.len() ==> ((#[trigger] old(st)@.infos[j]) matches Some(i)
                ==> bounded_info(i)),
    ensures
        final(st)@ == spec_set_or_merge(old(st)@, t as int, info@),
{
    let prev: Option<Info> = match &st.infos[t] {
        None => None,
        Some(p) => Some(copy_info(p)),
    };
    proof {
        assert(old(st)@.infos[t as int] == view_info_opt(st.infos@[t as int]));
    }
    match prev {
        None => {
            st.infos.set(t, Some(info));
            proof {
                assert(st@.infos =~= old(st)@.infos.update(t as int, Some(info@)));
                assert(st@ =~= spec_set_or_merge(old(st)@, t as int, info@));
            }
        },
        Some(prev) => {
            proof {
                assert(bounded_info(prev@));
            }
            let ghost merged = merge_equations(prev@, info@);
            if prev.locals != info.locals {
                let c: i32 = prev.locals as i32 - info.locals as i32;
                st.equations.push(LinExpr { const_term: c, plus: Vec::new(), minus: Vec::new() });
            }
            let func_mismatch = prev.func != info.func;
            match (prev.ap, info.ap) {
                (Some(x), Some(y)) => {
                    let c: i32 = x.const_term - y.const_term;
                    st.equations.push(LinExpr { const_term: c, plus: x.vars, minus: y.vars });
                    if func_mismatch {
                        let mut p1: Vec<Var> = Vec::new();
                        p1.push(Var::FunctionApChange(prev.func));
                        let mut m1: Vec<Var> = Vec::new();
                        m1.push(Var::FunctionApChange(info.func));
                        st.equations.push(LinExpr { const_term: 0, plus: p1, minus: m1 });
                    }
                },
                _ => {},
            }
            proof {
                assert(st@.equations =~= old(st)@.equations + merged);
                assert(st@ =~= spec_set_or_merge(old(st)@, t as int, info@));
            }
        },
    }
}

/// Processes one branch of the invocation at point `idx`.
fn apply_branch(
    st: &mut GenState,
    idx: usize,
    n: usize,
    src: &Info,
    target: &BranchTarget,
    change: ApChange,
) -> (r: Result<(), ApChangeError>)
    requires
        n == old(st)@.infos.len(),
        n <= MAX_STATEMENTS,
        idx < n,
        wf_state(old(st)@, idx as int, n as int),
        old(st)@.infos[idx as int] is Some,
        wf_info(src@, idx as int),
        bounded_change(change),
    ensures
        (r matches Ok(u) ==> spec_branch_step(old(st)@, idx as int, n as int, src@, *target, change)
            == Ok::<GenStateV, ApChangeError>(final(st)@)),
        (r matches Err(e) ==> spec_branch_step(old(st)@, idx as int, n as int, src@, *target, change)
            == Err::<GenStateV, ApChangeError>(e) && final(st)@ == old(st)@),
{
    proof {
        assert((idx as int) * (MAX_AP_STEP as int) + (MAX_AP_STEP as int) <= 0x10000000) by (
        nonlinear_arith)
            requires
                0 <= idx as int <= MAX_STATEMENTS as int - 1,
        ;
    }
    let eff = Effects::of_ap_change(change);
    let t = branch_target(idx, target);
    if t >= n {
        return Err(ApChangeError::StatementOutOfBounds(t));
    }
    let locals = src.locals + eff.locals;
    if let ApChange::FinalizeLocals = eff.ap_change {
        let mut p1: Vec<Var> = Vec::new();
        p1.push(Var::LibfuncImplicitApChangeVariable(idx));
        let c: i32 = 0i32 - (src.locals as i32);
        let m0: Vec<Var> = Vec::new();
        proof {
            assert(p1@ =~= seq![Var::LibfuncImplicitApChangeVariable(idx)]);
            assert(m0@ =~= Seq::<Var>::empty());
        }
        st.equations.push(LinExpr { const_term: c, plus: p1, minus: m0 });
    }
    let ghost st1 = st@;
    proof {
        let effv = spec_effect_of(change);
        let spec_st1 = match effv.ap_change {
            ApChange::FinalizeLocals => GenStateV {
                infos: old(st)@.infos,
                equations: old(st)@.equations.push(
                    LinExprV {
                        const_term: -src@.locals,
                        plus: seq![Var::LibfuncImplicitApChangeVariable(idx)],
                        minus: seq![],
                    },
                ),
            },
            _ => old(st)@,
        };
        assert(st1 =~= spec_st1);
    }
    let ap: Option<PathExpr> = match eff.ap_change {
        ApChange::Unknown => None,
        ApChange::Known(k) => match &src.ap {
            None => None,
            Some(p) => Some(
                PathExpr { const_term: p.const_term + k as i32, vars: copy_vars(&p.vars) },
            ),
        },
        ApChange::AtLocalsFinalization(_) => match &src.ap {
            None => None,
            Some(p) => Some(copy_path(p)),
        },
        ApChange::FromMetadata => match &src.ap {
            None => None,
            Some(p) => {
                let mut vs = copy_vars(&p.vars);
                vs.push(Var::LibfuncImplicitApChangeVariable(idx));
                Some(PathExpr { const_term: p.const_term, vars: vs })
            },
        },
        ApChange::FunctionCall(f) => match &src.ap {
            None => None,
            Some(p) => {
                let mut vs = copy_vars(&p.vars);
                vs.push(Var::FunctionApChange(f));
                Some(PathExpr { const_term: p.const_term, vars: vs })
            },
        },
        ApChange::FinalizeLocals => match &src.ap {
            None => None,
            Some(p) => {
                let mut vs = copy_vars(&p.vars);
                vs.push(Var::LibfuncImplicitApChangeVariable(idx));
                Some(PathExpr { const_term: p.const_term, vars: vs })
            },
        },
    };
    let info = Info { func: src.func, ap, locals };
    proof {
        let effv = spec_effect_of(change);
        assert(info@.ap == match effv.ap_change {
            ApChange::Unknown => None::<PathExprV>,
            ApChange::Known(k) => add_const(src@.ap, k as int),
            ApChange::FromMetadata => add_var(
                src@.ap,
                Var::LibfuncImplicitApChangeVariable(idx as int as usize),
            ),
            ApChange::AtLocalsFinalization(_) => add_const(src@.ap, 0),
            ApChange::FunctionCall(f) => add_var(src@.ap, Var::FunctionApChange(f)),
            ApChange::FinalizeLocals => add_var(
                src@.ap,
                Var::LibfuncImplicitApChangeVariable(idx as int as usize),
            ),
        });
        assert(bounded_info(info@));
        assert(forall|j: int|
            0 <= j < st@.infos.len() ==> ((#[trigger] st@.infos[j]) matches Some(i) ==> bounded_info(
                i,
            ))) by {
            assert(forall|j: int|
                0 <= j < st@.infos.len() ==> st@.infos[j] == old(st)@.infos[j]);
            assert(forall|j: int|
                0 <= j < old(st)@.infos.len() ==> ((#[trigger] old(st)@.infos[j]) matches Some(i)
                    ==> wf_info(i, j) && bounded_info(i))) by {
                assert(forall|j: int|
                    0 <= j < old(st)@.infos.len() ==> ((#[trigger] old(st)@.infos[j]) matches Some(
                        i,
                    ) ==> wf_info(i, j)));
                assert forall|j: int|
                    0 <= j < old(st)@.infos.len() && (#[trigger] old(st)@.infos[j]) is Some implies {
                    bounded_info(old(st)@.infos[j].unwrap())
                } by {
                    lemma_wf_info_bounded(old(st)@.infos[j].unwrap(), j);
                }
            }
        }
    }
    set_or_merge(st, t, info);
    proof {
        let r = spec_branch_step(old(st)@, idx as int, n as int, src@, *target, change);
        assert(r is Ok);
        assert(r.unwrap() =~= st@);
        assert(r == Ok::<GenStateV, ApChangeError>(st@));
    }
    Ok(())
}

/// Generates the full equation system for a program under a classifier, or
/// fails with the first error the walk meets.
pub fn generate_equations<C: ApChangeClassifier>(program: &Program, classifier: &C) -> (r: Result<
    Vec<LinExpr>,
    ApChangeError,
>)
    requires
        program.statements@.len() <= MAX_STATEMENTS,
        bounded_classifier::<C>(*classifier),
    ensures
        (r matches Ok(eqs) ==> spec_generate(*program, *classifier) == Ok::<
            Seq<LinExprV>,
            ApChangeError,
        >(views_of(eqs@))),
        (r matches Err(e) ==> spec_generate(*program, *classifier) == Err::<
            Seq<LinExprV>,
            ApChangeError,
        >(e)),
{
    let n = program.statements.len();
    let nf = program.funcs.len();
    let mut infos: Vec<Option<Info>> = Vec::new();
    let mut q: usize = 0;
    while q < n
        invariant
            infos@.len() == q as int,
            q <= n,
            forall|j: int| 0 <= j < q ==> (#[trigger] infos@[j]) is None,
        decreases n - q,
    {
        infos.push(None);
        q = q + 1;
    }
    let mut st = GenState { infos, equations: Vec::new() };
    proof {
        assert(st@ =~= (GenStateV {
            infos: Seq::new(program.statements@.len() as nat, |i: int| None::<InfoV>),
            equations: seq![],
        }));
        assert(spec_entries_upto(*program, 0) == Ok::<GenStateV, ApChangeError>(st@));
        lemma_entries_upto_wf(*program, 0);
    }
    let mut j: usize = 0;
    while j < nf
        invariant
            nf == program.funcs@.len(),
            n == program.statements@.len(),
            n <= MAX_STATEMENTS,
            j <= nf,
            spec_entries_upto(*program, j as int) == Ok::<GenStateV, ApChangeError>(st@),
            wf_state(st@, 0, n as int),
        decreases nf - j,
    {
        let ghost pre = st@;
        let ep = program.funcs[j].entry_point;
        let fid = program.funcs[j].id;
        proof {
            assert(program.funcs@[j as int] == Function { id: fid, entry_point: ep });
        }
        if ep >= n {
            proof {
                assert(spec_entries_upto(*program, j as int + 1) == Err::<
                    GenStateV,
                    ApChangeError,
                >(ApChangeError::StatementOutOfBounds(ep)));
                lemma_entries_upto_persists(
                    *program,
                    j as int + 1,
                    program.funcs@.len() as int,
                );
                lemma_gen_upto_persists(
                    *program,
                    *classifier,
                    0,
                    program.statements@.len() as int,
                );
            }
            return Err(ApChangeError::StatementOutOfBounds(ep));
        }
        let vars0: Vec<Var> = Vec::new();
        proof {
            assert(vars0@ =~= Seq::<Var>::empty());
            lemma_state_infos_bounded(st@, 0, n as int);
        }
        let info = Info { func: fid, ap: Some(PathExpr { const_term: 0, vars: vars0 }), locals: 0 };
        proof {
            assert(info@ =~= (InfoV {
                func: fid,
                ap: Some(PathExprV { const_term: 0, vars: seq![] }),
                locals: 0,
            }));
            assert(bounded_info(info@));
        }
        set_or_merge(&mut st, ep, info);
        proof {
            assert(spec_entry_step(pre, n as int, program.funcs@[j as int]) == Ok::<
                GenStateV,
                ApChangeError,
            >(st@));
            assert(spec_entries_upto(*program, j as int + 1) == Ok::<GenStateV, ApChangeError>(
                st@,
            ));
            lemma_entries_upto_wf(*program, j as int + 1);
        }
        j = j + 1;
    }
    proof {
        assert(spec_gen_upto(*program, *classifier, 0) == Ok::<GenStateV, ApChangeError>(st@));
    }
    let mut i: usize = 0;
    while i < n
        invariant
            n == program.statements@.len(),
            n <= MAX_STATEMENTS,
            i <= n,
            bounded_classifier::<C>(*classifier),
            spec_gen_upto(*program, *classifier, i as int) == Ok::<GenStateV, ApChangeError>(st@),
            wf_state(st@, i as int, n as int),
        decreases n - i,
    {
        let ghost pre = st@;
        proof {
            assert(pre.infos[i as int] == view_info_opt(st.infos@[i as int]));
        }
        match &program.statements[i] {
            Statement::Return => {
                let eqn: Option<LinExpr>;
                match &st.infos[i] {
                    None => {
                        proof {
                            lemma_gen_upto_step(*program, *classifier, i as int);
                            assert(spec_gen_upto(*program, *classifier, i as int + 1) == Err::<
                                GenStateV,
                                ApChangeError,
                            >(ApChangeError::StatementOutOfOrder(i)));
                            lemma_gen_upto_persists(
                                *program,
                                *classifier,
                                i as int + 1,
                                n as int,
                            );
                        }
                        return Err(ApChangeError::StatementOutOfOrder(i));
                    },
                    Some(info) => {
                        match &info.ap {
                            None => {
                                eqn = None;
                            },
                            Some(x) => {
                                let mut m1: Vec<Var> = Vec::new();
                                m1.push(Var::FunctionApChange(info.func));
                                proof {
                                    assert(m1@ =~= seq![Var::FunctionApChange(info.func)]);
                                }
                                eqn = Some(
                                    LinExpr {
                                        const_term: x.const_term,
                                        plus: copy_vars(&x.vars),
                                        minus: m1,
                                    },
                                );
                            },
                        }
                    },
                }
                if let Some(eqn_val) = eqn {
                    st.equations.push(eqn_val);
                }
                proof {
                    let step = spec_statement_step(*program, *classifier, pre, i as int);
                    assert(step is Ok);
                    assert(step.unwrap() =~= st@);
                    lemma_gen_upto_step(*program, *classifier, i as int);
                            assert(spec_gen_upto(*program, *classifier, i as int + 1) == Ok::<
                        GenStateV,
                        ApChangeError,
                    >(st@));
                }
            },
            Statement::Invocation { libfunc, branches } => {
                let src: Info;
                match &st.infos[i] {
                    None => {
                        proof {
                            lemma_gen_upto_step(*program, *classifier, i as int);
                            assert(spec_gen_upto(*program, *classifier, i as int + 1) == Err::<
                                GenStateV,
                                ApChangeError,
                            >(ApChangeError::StatementOutOfOrder(i)));
                            lemma_gen_upto_persists(
                                *program,
                                *classifier,
                                i as int + 1,
                                n as int,
                            );
                        }
                        return Err(ApChangeError::StatementOutOfOrder(i));
                    },
                    Some(info) => {
                        src = copy_info(info);
                    },
                }
                proof {
                    assert(pre.infos[i as int] == Some(src@));
                    assert(wf_info(src@, i as int));
                }
                match classifier.libfunc_ap_change(*libfunc) {
                    Err(ClassifierError::Lookup(le)) => {
                        proof {
                            lemma_gen_upto_step(*program, *classifier, i as int);
                            assert(spec_gen_upto(*program, *classifier, i as int + 1) == Err::<
                                GenStateV,
                                ApChangeError,
                            >(ApChangeError::ProgramRegistryError(le)));
                            lemma_gen_upto_persists(
                                *program,
                                *classifier,
                                i as int + 1,
                                n as int,
                            );
                        }
                        return Err(ApChangeError::ProgramRegistryError(le));
                    },
                    Err(ClassifierError::Unsupported) => {
                        proof {
                            lemma_gen_upto_step(*program, *classifier, i as int);
                            assert(spec_gen_upto(*program, *classifier, i as int + 1) == Err::<
                                GenStateV,
                                ApChangeError,
                            >(ApChangeError::IllegalInvocation(i)));
                            lemma_gen_upto_persists(
                                *program,
                                *classifier,
                                i as int + 1,
                                n as int,
                            );
                        }
                        return Err(ApChangeError::IllegalInvocation(i));
                    },
                    Ok(chs) => {
                        if chs.len() != branches.len() {
                            proof {
                                lemma_gen_upto_step(*program, *classifier, i as int);
                            assert(spec_gen_upto(*program, *classifier, i as int + 1)
                                    == Err::<GenStateV, ApChangeError>(
                                    ApChangeError::IllegalInvocation(i),
                                ));
                                lemma_gen_upto_persists(
                                    *program,
                                    *classifier,
                                    i as int + 1,
                                    n as int,
                                );
                            }
                            return Err(ApChangeError::IllegalInvocation(i));
                        }
                        let nb = branches.len();
                        proof {
                            assert(classifier.spec_classify(*libfunc) == Ok::<
                                Seq<ApChange>,
                                ClassifierError,
                            >(chs@));
                            assert(forall|q2: int|
                                0 <= q2 < chs@.len() ==> bounded_change(#[trigger] chs@[q2]));
                        }
                        let mut k: usize = 0;
                        while k < nb
                            invariant
                                nb == branches@.len(),
                                chs@.len() == nb,
                                classifier.spec_classify(*libfunc) == Ok::<
                                    Seq<ApChange>,
                                    ClassifierError,
                                >(chs@),
                                program.statements@[i as int] == (Statement::Invocation {
                                    libfunc: *libfunc,
                                    branches: *branches,
                                }),
                                spec_gen_upto(*program, *classifier, i as int) == Ok::<
                                    GenStateV,
                                    ApChangeError,
                                >(pre),
                                pre.infos[i as int] == Some(src@),
                                n == program.statements@.len(),
                                n <= MAX_STATEMENTS,
                                i < n,
                                k <= nb,
                                wf_info(src@, i as int),
                                forall|q2: int|
                                    0 <= q2 < chs@.len() ==> bounded_change(
                                        #[trigger] chs@[q2],
                                    ),
                                spec_branches_upto(
                                    pre,
                                    i as int,
                                    n as int,
                                    src@,
                                    branches@,
                                    chs@,
                                    k as int,
                                ) == Ok::<GenStateV, ApChangeError>(st@),
                                wf_state(st@, i as int, n as int),
                                st@.infos[i as int] is Some,
                            decreases nb - k,
                        {
                            let ghost stb = st@;
                            match apply_branch(&mut st, i, n, &src, &branches[k], chs[k]) {
                                Err(e) => {
                                    proof {
                                        assert(spec_branches_upto(
                                            pre,
                                            i as int,
                                            n as int,
                                            src@,
                                            branches@,
                                            chs@,
                                            k as int,
                                        ) == Ok::<GenStateV, ApChangeError>(stb));
                                        assert(spec_branch_step(
                                            stb,
                                            i as int,
                                            n as int,
                                            src@,
                                            branches@[k as int],
                                            chs@[k as int],
                                        ) == Err::<GenStateV, ApChangeError>(e));
                                        lemma_branches_upto_step(
                                            pre,
                                            i as int,
                                            n as int,
                                            src@,
                                            branches@,
                                            chs@,
                                            k as int,
                                        );
                                        assert(spec_branches_upto(
                                            pre,
                                            i as int,
                                            n as int,
                                            src@,
                                            branches@,
                                            chs@,
                                            k as int + 1,
                                        ) == Err::<GenStateV, ApChangeError>(e));
                                        lemma_branches_upto_persists(
                                            pre,
                                            i as int,
                                            n as int,
                                            src@,
                                            branches@,
                                            chs@,
                                            k as int + 1,
                                            nb as int,
                                        );
                                        assert(spec_branches_upto(
                                            pre,
                                            i as int,
                                            n as int,
                                            src@,
                                            branches@,
                                            chs@,
                                            branches@.len() as int,
                                        ) == Err::<GenStateV, ApChangeError>(e));
                                        assert(spec_statement_step(
                                            *program,
                                            *classifier,
                                            pre,
                                            i as int,
                                        ) == Err::<GenStateV, ApChangeError>(e));
                                        lemma_gen_upto_step(*program, *classifier, i as int);
                                        assert(spec_gen_upto(
                                            *program,
                                            *classifier,
                                            i as int + 1,
                                        ) == Err::<GenStateV, ApChangeError>(e));
                                        lemma_gen_upto_persists(
                                            *program,
                                            *classifier,
                                            i as int + 1,
                                            n as int,
                                        );
                                    }
                                    return Err(e);
                                },
                                Ok(_) => {},
                            }
                            proof {
                                lemma_branches_upto_step(
                                    pre,
                                    i as int,
                                    n as int,
                                    src@,
                                    branches@,
                                    chs@,
                                    k as int,
                                );
                                assert(spec_branches_upto(
                                    pre,
                                    i as int,
                                    n as int,
                                    src@,
                                    branches@,
                                    chs@,
                                    k as int + 1,
                                ) == Ok::<GenStateV, ApChangeError>(st@));
                                lemma_branch_step_wf(
                                    stb,
                                    i as int,
                                    n as int,
                                    src@,
                                    branches@[k as int],
                                    chs@[k as int],
                                );
                            }
                            k = k + 1;
                        }
                        proof {
                            let step = spec_statement_step(*program, *classifier, pre, i as int);
                            assert(step == Ok::<GenStateV, ApChangeError>(st@));
                            lemma_gen_upto_step(*program, *classifier, i as int);
                            assert(spec_gen_upto(*program, *classifier, i as int + 1) == Ok::<
                                GenStateV,
                                ApChangeError,
                            >(st@));
                        }
                    },
                }
            },
        }
        proof {
            lemma_gen_upto_wf(*program, *classifier, i as int + 1);
        }
        i = i + 1;
    }
    proof {
        assert(spec_generate(*program, *classifier) == Ok::<Seq<LinExprV>, ApChangeError>(
            st@.equations,
        ));
    }
    Ok(st.equations)
}

} // verus!
