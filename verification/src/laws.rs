//! The properties the analysis promises, stated and proved over the same
//! model its contracts use.

use vstd::prelude::*;

use crate::ap_change_info::{spec_assemble, ApChangeInfoV};
use crate::expr::{distinct_keys, lookup, lookup_val, nontrivial_eqs, satisfies, sum_vals, LinExprV, Var};
use crate::generate_equations::{
    lemma_branches_upto_step, lemma_gen_upto_step, spec_branch_step, spec_branches_upto,
    spec_entries_upto, spec_gen_upto, spec_generate, spec_statement_step, GenStateV, InfoV,
    PathExprV,
};
use crate::program::{BranchTarget, FunctionId, Program, Statement};
use crate::solve::solver_outcome;
use crate::{spec_calc, ApChange, ApChangeClassifier, ApChangeError, ClassifierError};

verus! {

/// The assignment a successful analysis solved: the solver's outcome for
/// the equations that constrain a variable, or the empty assignment when
/// none does.
pub open spec fn spec_solution<C: ApChangeClassifier>(p: Program, c: C) -> Seq<(Var, i64)> {
    let eqs = spec_generate(p, c).unwrap();
    let solver_eqs = nontrivial_eqs(eqs);
    if solver_eqs.len() == 0 {
        Seq::empty()
    } else {
        solver_outcome(solver_eqs).unwrap()
    }
}

/// Determinism: the analysis result is a function of the program and the
/// classifier alone, so two results obtained from the same inputs — each as
/// `calc_ap_changes` ensures it — are equal.
pub proof fn lemma_analysis_deterministic<C: ApChangeClassifier>(
    p: Program,
    c: C,
    r1: Result<ApChangeInfoV, ApChangeError>,
    r2: Result<ApChangeInfoV, ApChangeError>,
)
    requires
        r1 == spec_calc(p, c),
        r2 == spec_calc(p, c),
    ensures
        r1 == r2,
{
}

/// Soundness: a successful analysis result is the partition of an
/// assignment that, substituted back, satisfies every generated equation
/// exactly.
pub proof fn lemma_solution_sound<C: ApChangeClassifier>(p: Program, c: C)
    requires
        spec_calc(p, c) is Ok,
    ensures
        spec_generate(p, c) is Ok,
        satisfies(spec_solution(p, c), spec_generate(p, c).unwrap()),
        spec_calc(p, c) == Ok::<ApChangeInfoV, ApChangeError>(
            spec_assemble(spec_solution(p, c)),
        ),
{
}

/// Unsolvable detection: when no assignment satisfies the generated
/// equations, the analysis reports the solving failure, never a numeric
/// result.
pub proof fn lemma_unsolvable_detected<C: ApChangeClassifier>(p: Program, c: C)
    requires
        spec_generate(p, c) is Ok,
        forall|sol: Seq<(Var, i64)>| !satisfies(sol, spec_generate(p, c).unwrap()),
    ensures
        spec_calc(p, c) == Err::<ApChangeInfoV, ApChangeError>(
            ApChangeError::SolvingApChangeEquationFailed,
        ),
{
    let eqs = spec_generate(p, c).unwrap();
    let solver_eqs = nontrivial_eqs(eqs);
    if solver_eqs.len() == 0 {
        assert(!satisfies(Seq::<(Var, i64)>::empty(), eqs));
    } else {
        match solver_outcome(solver_eqs) {
            None => {},
            Some(sol) => {
                assert(!satisfies(sol, eqs));
            },
        }
    }
}

/// Call consistency, at the result level: a successful analysis resolves
/// one value per function identity — the value of the function's single
/// unknown in the solved assignment — and `lemma_solution_sound` shows that
/// every call site's equation holds under that same assignment.  The
/// solver binds each unknown at most once, which is the distinctness
/// hypothesis.
pub proof fn lemma_call_consistency<C: ApChangeClassifier>(p: Program, c: C, f: FunctionId)
    requires
        spec_calc(p, c) is Ok,
        distinct_keys(spec_solution(p, c)),
        lookup(spec_solution(p, c), Var::FunctionApChange(f)) is Some,
    ensures
        spec_calc(p, c).unwrap().function_ap_change.contains_key(f),
        spec_calc(p, c).unwrap().function_ap_change[f] == lookup(
            spec_solution(p, c),
            Var::FunctionApChange(f),
        ).unwrap() as usize,
{
    lemma_solution_sound(p, c);
    crate::ap_change_info::lemma_assemble_binds(spec_solution(p, c));
}

/// The known step of the chain at point `i`.
pub open spec fn known_step<C: ApChangeClassifier>(p: Program, c: C, i: int) -> usize {
    match p.statements@[i] {
        Statement::Invocation { libfunc, .. } => match c.spec_classify(libfunc) {
            Ok(s) => match s[0] {
                ApChange::Known(k) => k,
                _ => 0,
            },
            Err(_) => 0,
        },
        _ => 0,
    }
}

/// Whether the program is a straight-line chain under the classifier: one
/// function entered at point zero, `m` invocations each with a single
/// fall-through branch classified `Known`, and a final return.
pub open spec fn straight_known_chain<C: ApChangeClassifier>(p: Program, c: C, m: int) -> bool {
    &&& p.statements@.len() == m + 1
    &&& p.funcs@.len() == 1
    &&& p.funcs@[0].entry_point == 0
    &&& p.statements@[m] matches Statement::Return
    &&& forall|i: int|
        0 <= i < m ==> match #[trigger] p.statements@[i] {
            Statement::Invocation { libfunc, branches } => {
                &&& branches@ == seq![BranchTarget::Fallthrough]
                &&& c.spec_classify(libfunc) == Ok::<Seq<ApChange>, ClassifierError>(
                    seq![ApChange::Known(known_step(p, c, i))],
                )
            },
            _ => false,
        }
}

/// The sum of the chain's known steps before point `i`.
pub open spec fn prefix_sum<C: ApChangeClassifier>(p: Program, c: C, i: int) -> int
    decreases i,
{
    if i <= 0 {
        0
    } else {
        prefix_sum(p, c, i - 1) + known_step(p, c, i - 1)
    }
}

/// The tracking the walk records at point `j` of the chain.
pub open spec fn chain_info<C: ApChangeClassifier>(p: Program, c: C, j: int) -> InfoV {
    InfoV {
        func: p.funcs@[0].id,
        ap: Some(PathExprV { const_term: prefix_sum(p, c, j), vars: seq![] }),
        locals: 0,
    }
}

/// The generator's state after walking the first `i` points of the chain.
pub open spec fn chain_state<C: ApChangeClassifier>(p: Program, c: C, i: int, m: int) -> GenStateV {
    GenStateV {
        infos: Seq::new(
            (m + 1) as nat,
            |j: int|
                if 0 <= j <= i {
                    Some(chain_info(p, c, j))
                } else {
                    None
                },
        ),
        equations: seq![],
    }
}

/// Walking the chain records exactly the prefix sums, point by point.
proof fn lemma_chain_upto<C: ApChangeClassifier>(p: Program, c: C, m: int, i: int)
    requires
        straight_known_chain(p, c, m),
        0 <= i <= m,
    ensures
        spec_gen_upto(p, c, i) == Ok::<GenStateV, ApChangeError>(chain_state(p, c, i, m)),
    decreases i,
{
    if i == 0 {
        let st0 = GenStateV {
            infos: Seq::new(p.statements@.len() as nat, |j: int| None::<InfoV>),
            equations: seq![],
        };
        assert(spec_entries_upto(p, 0) == Ok::<GenStateV, ApChangeError>(st0));
        assert(spec_entries_upto(p, 1) is Ok);
        let st1 = spec_entries_upto(p, 1).unwrap();
        assert(st1 =~= chain_state(p, c, 0, m));
        assert(spec_gen_upto(p, c, 0) == spec_entries_upto(p, 1));
        assert(spec_gen_upto(p, c, 0) == Ok::<GenStateV, ApChangeError>(chain_state(p, c, 0, m)));
    } else {
        lemma_chain_upto(p, c, m, i - 1);
        let st = chain_state(p, c, i - 1, m);
        assert(st.infos[i - 1] == Some(chain_info(p, c, i - 1)));
        match p.statements@[i - 1] {
            Statement::Invocation { libfunc, branches } => {
                assert(branches@ == seq![BranchTarget::Fallthrough]);
                let changes = seq![ApChange::Known(known_step(p, c, i - 1))];
                assert(c.spec_classify(libfunc) == Ok::<Seq<ApChange>, ClassifierError>(changes));
                assert(changes.len() == branches@.len());
                let step = spec_branch_step(
                    st,
                    i - 1,
                    (m + 1) as int,
                    chain_info(p, c, i - 1),
                    BranchTarget::Fallthrough,
                    ApChange::Known(known_step(p, c, i - 1)),
                );
                assert(branches@[0] == BranchTarget::Fallthrough);
                assert(changes[0] == ApChange::Known(known_step(p, c, i - 1)));
                assert(step is Ok);
                assert(step.unwrap() =~= chain_state(p, c, i, m));
                lemma_branches_upto_step(
                    st,
                    i - 1,
                    m + 1,
                    chain_info(p, c, i - 1),
                    branches@,
                    changes,
                    0,
                );
                assert(spec_branches_upto(
                    st,
                    i - 1,
                    m + 1,
                    chain_info(p, c, i - 1),
                    branches@,
                    changes,
                    1,
                ) == Ok::<GenStateV, ApChangeError>(chain_state(p, c, i, m)));
                assert(p.statements@.len() as int == m + 1);
                assert(spec_statement_step(p, c, st, i - 1) == Ok::<GenStateV, ApChangeError>(
                    chain_state(p, c, i, m),
                ));
                lemma_gen_upto_step(p, c, i - 1);
                assert(spec_gen_upto(p, c, i) == Ok::<GenStateV, ApChangeError>(
                    chain_state(p, c, i, m),
                ));
            },
            _ => {
                assert(false);
            },
        }
    }
}

/// Known-chain arithmetic: over a straight-line chain of known moves, the
/// `ap` movement the walk tracks at each program point is the prefix sum of
/// the steps before it, relative to the function's entry (the zero point);
/// the system holds one equation, and every assignment satisfying it gives
/// the function's unknown exactly the chain's total.
pub proof fn lemma_known_chain_prefix_sums<C: ApChangeClassifier>(p: Program, c: C, m: int)
    requires
        straight_known_chain(p, c, m),
        0 <= m,
    ensures
        spec_gen_upto(p, c, m) is Ok,
        forall|j: int|
            0 <= j <= m ==> #[trigger] spec_gen_upto(p, c, m).unwrap().infos[j] == Some(
                chain_info(p, c, j),
            ),
        spec_generate(p, c) == Ok::<Seq<LinExprV>, ApChangeError>(
            seq![
                LinExprV {
                    const_term: prefix_sum(p, c, m),
                    plus: seq![],
                    minus: seq![Var::FunctionApChange(p.funcs@[0].id)],
                },
            ],
        ),
        forall|sol: Seq<(Var, i64)>|
            #[trigger] satisfies(sol, spec_generate(p, c).unwrap()) ==> lookup_val(
                sol,
                Var::FunctionApChange(p.funcs@[0].id),
            ) == prefix_sum(p, c, m),
{
    lemma_chain_upto(p, c, m, m);
    let st = chain_state(p, c, m, m);
    assert(st.infos[m] == Some(chain_info(p, c, m)));
    let f = p.funcs@[0].id;
    let eq = LinExprV {
        const_term: prefix_sum(p, c, m),
        plus: seq![],
        minus: seq![Var::FunctionApChange(f)],
    };
    lemma_gen_upto_step(p, c, m);
    let step = spec_gen_upto(p, c, m + 1);
    assert(step is Ok);
    assert(step.unwrap().equations =~= seq![eq]);
    assert(spec_generate(p, c) == Ok::<Seq<LinExprV>, ApChangeError>(step.unwrap().equations));
    assert(step.unwrap().equations == seq![eq]);
    assert forall|sol: Seq<(Var, i64)>|
        #[trigger] satisfies(sol, spec_generate(p, c).unwrap()) implies lookup_val(
        sol,
        Var::FunctionApChange(f),
    ) == prefix_sum(p, c, m) by {
        assert(spec_generate(p, c).unwrap()[0] == eq);
        assert(crate::expr::eq_holds(eq, sol));
        assert(sum_vals(eq.plus, sol) == 0);
        assert(eq.minus.drop_first() =~= Seq::<Var>::empty());
        assert(eq.minus[0] == Var::FunctionApChange(f));
        assert(sum_vals(eq.minus, sol) == lookup_val(sol, Var::FunctionApChange(f)));
    }
}

} // verus!
