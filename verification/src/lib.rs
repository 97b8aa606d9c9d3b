//! Whole-program static analysis of allocation-pointer (AP) movement for a
//! stack-machine intermediate representation.
//!
//! The analysis walks the program's statements in order, classifies how each
//! branch of each statement moves the allocation pointer, builds a system of
//! linear equations over the unknown movements, hands that system to an
//! external equation solver, and folds the solution into per-statement and
//! per-function result maps.

use vstd::prelude::*;

pub mod ap_change_info;
pub mod classifier;
pub mod expr;
pub mod laws;
pub mod generate_equations;
pub mod program;
pub mod solve;

use crate::program::{FunctionId, LibfuncId, StatementIdx};

verus! {

/// Describes the effect on the `ap` register in a given libfunc branch.
#[derive(Clone, Copy, Debug, PartialEq, Eq, Structural)]
pub enum ApChange {
    /// The libfunc changes `ap` in an unknown way.
    Unknown,
    /// The libfunc changes `ap` by a known size.
    Known(usize),
    /// The libfunc changes `ap` by a known size, provided in the metadata.
    /// Currently this only includes the branch-alignment libfunc.
    FromMetadata,
    /// The libfunc changes `ap` by a known size at locals finalization stage.
    AtLocalsFinalization(usize),
    /// The libfunc is a function call - it changes according to the given
    /// function and call cost.
    FunctionCall(FunctionId),
    /// The libfunc finalizes the locals; the `ap` change depends on the
    /// number of cells reserved along the path reaching it.
    FinalizeLocals,
}

/// A lookup the program registry could not resolve; forwarded inside
/// [`ApChangeError::ProgramRegistryError`] to preserve the original cause.
#[derive(Clone, Copy, Debug, PartialEq, Eq, Structural)]
pub enum RegistryError {
    /// The registry has no operation with this identity.
    MissingLibfunc(LibfuncId),
}

/// Why a classifier could not produce classifications for an operation.
#[derive(Clone, Copy, Debug, PartialEq, Eq, Structural)]
pub enum ClassifierError {
    /// An underlying registry lookup failed.
    Lookup(RegistryError),
    /// The operation is not a primitive this analysis recognizes.
    Unsupported,
}

/// Error occurring while calculating the ap changes of a program.
#[derive(Clone, Copy, Debug, PartialEq, Eq, Structural)]
pub enum ApChangeError {
    /// A registry lookup failed; carries the underlying cause.
    ProgramRegistryError(RegistryError),
    /// A branch target is not a valid program point.
    StatementOutOfBounds(StatementIdx),
    /// A statement was reached by no function entry and no earlier branch,
    /// so the forward walk has no information about it.
    StatementOutOfOrder(StatementIdx),
    /// The classifier could not produce one effect per branch for the
    /// statement's operation.
    IllegalInvocation(StatementIdx),
    /// The solve step produced no assignment satisfying the equations.
    SolvingApChangeEquationFailed,
}

impl ApChangeError {
    /// A short description of the error.
    pub fn message(&self) -> (r: &'static str) {
        match self {
            ApChangeError::ProgramRegistryError(_) => "error from the program registry",
            ApChangeError::StatementOutOfBounds(_) => {
                "found an illegal statement index during ap change calculations"
            },
            ApChangeError::StatementOutOfOrder(_) => {
                "found an illegal statement index during ap change calculations"
            },
            ApChangeError::IllegalInvocation(_) => {
                "found an illegal invocation during cost calculations"
            },
            ApChangeError::SolvingApChangeEquationFailed => "failed solving the ap changes",
        }
    }
}

/// The effects of one branch of one statement: its `ap` change for
/// control-flow purposes, decoupled from the local cells it reserves.
#[derive(Clone, Copy, Debug, PartialEq, Eq, Structural)]
pub struct Effects {
    /// How the branch moves the allocation pointer.
    pub ap_change: ApChange,
    /// How many local cells the branch reserves.
    pub locals: usize,
}

/// The normalization rule of the ap-change model: a known move at locals
/// finalization becomes a zero `ap` move plus a locals reservation; every
/// other classification passes through with no locals.
pub open spec fn spec_effect_of(c: ApChange) -> Effects {
    match c {
        ApChange::AtLocalsFinalization(n) => Effects { ap_change: ApChange::Known(0), locals: n },
        _ => Effects { ap_change: c, locals: 0 },
    }
}

impl Effects {
    /// Normalizes one classification into the effects of its branch.
    pub fn of_ap_change(c: ApChange) -> (r: Effects)
        ensures
            r == spec_effect_of(c),
    {
        match c {
            ApChange::AtLocalsFinalization(n) => Effects {
                ap_change: ApChange::Known(0),
                locals: n,
            },
            _ => Effects { ap_change: c, locals: 0 },
        }
    }
}

/// The per-operation effect classifier the analysis is parametric over: it
/// maps an operation identity to one classification per outgoing branch.
pub trait ApChangeClassifier {
    /// The classification this classifier gives each operation.
    spec fn spec_classify(&self, libfunc: LibfuncId) -> Result<Seq<ApChange>, ClassifierError>;

    /// Returns one classification per outgoing branch of invocations of
    /// `libfunc`, or reports why it cannot.
    fn libfunc_ap_change(&self, libfunc: LibfuncId) -> (r: Result<Vec<ApChange>, ClassifierError>)
        ensures
            (r matches Ok(v) ==> self.spec_classify(libfunc) matches Ok(s) && v@ == s),
            (r matches Err(e) ==> self.spec_classify(libfunc) == Err::<Seq<ApChange>, _>(e)),
    ;
}

/// The whole analysis as a function of the program and the classifier: the
/// generated equations are solved (only those that constrain a variable are
/// handed to the solver), the returned assignment is checked against every
/// equation exactly, and the checked assignment is folded into the result
/// maps.  Any failure along the way is the error the analysis reports.
pub open spec fn spec_calc<C: ApChangeClassifier>(p: program::Program, c: C) -> Result<
    ap_change_info::ApChangeInfoV,
    ApChangeError,
> {
    match generate_equations::spec_generate(p, c) {
        Err(e) => Err(e),
        Ok(eqs) => {
            let solver_eqs = expr::nontrivial_eqs(eqs);
            let outcome = if solver_eqs.len() == 0 {
                Some(Seq::<(expr::Var, i64)>::empty())
            } else {
                solve::solver_outcome(solver_eqs)
            };
            match outcome {
                None => Err(ApChangeError::SolvingApChangeEquationFailed),
                Some(sol) => if expr::satisfies(sol, eqs) {
                    Ok(ap_change_info::spec_assemble(sol))
                } else {
                    Err(ApChangeError::SolvingApChangeEquationFailed)
                },
            }
        },
    }
}

/// Calculates the `ap` change information of a program under a classifier.
///
/// The result is a function of the inputs alone, so two runs on the same
/// program and classifier return the same analysis result.
pub fn calc_ap_changes<C: ApChangeClassifier>(program: &program::Program, classifier: &C) -> (r:
    Result<ap_change_info::ApChangeInfo, ApChangeError>)
    requires
        program.statements@.len() <= generate_equations::MAX_STATEMENTS,
        generate_equations::bounded_classifier::<C>(*classifier),
    ensures
        (r matches Ok(info) ==> spec_calc(*program, *classifier) matches Ok(v) && info@ == v),
        (r matches Err(e) ==> spec_calc(*program, *classifier) == Err::<
            ap_change_info::ApChangeInfoV,
            ApChangeError,
        >(e)),
{
    let eqs = match generate_equations::generate_equations(program, classifier) {
        Err(e) => {
            return Err(e);
        },
        Ok(eqs) => eqs,
    };
    let n = eqs.len();
    let mut solver_eqs: Vec<expr::LinExpr> = Vec::new();
    let mut i: usize = 0;
    proof {
        assert(expr::views_of(eqs@).take(0) =~= Seq::<expr::LinExprV>::empty());
        assert(expr::views_of(solver_eqs@) =~= expr::nontrivial_eqs(
            expr::views_of(eqs@).take(0),
        ));
    }
    while i < n
        invariant
            n == eqs@.len(),
            i <= n,
            expr::views_of(solver_eqs@) == expr::nontrivial_eqs(
                expr::views_of(eqs@).take(i as int),
            ),
            forall|k: int|
                0 <= k < solver_eqs@.len() ==> !expr::net_trivial(
                    (#[trigger] solver_eqs@[k])@,
                ),
        decreases n - i,
    {
        proof {
            assert(expr::views_of(eqs@).take(i as int + 1).drop_last() =~= expr::views_of(
                eqs@,
            ).take(i as int));
            assert(expr::views_of(eqs@).take(i as int + 1).last() == eqs@[i as int]@);
        }
        if expr::has_net_var(&eqs[i]) {
            solver_eqs.push(expr::copy_equation(&eqs[i]));
            proof {
                assert(expr::views_of(solver_eqs@) =~= expr::nontrivial_eqs(
                    expr::views_of(eqs@).take(i as int + 1),
                ));
            }
        } else {
            proof {
                assert(expr::views_of(solver_eqs@) =~= expr::nontrivial_eqs(
                    expr::views_of(eqs@).take(i as int + 1),
                ));
            }
        }
        i = i + 1;
    }
    proof {
        assert(expr::views_of(eqs@).take(n as int) =~= expr::views_of(eqs@));
    }
    let sol: Vec<(expr::Var, i64)> = if solver_eqs.len() == 0 {
        let empty_sol: Vec<(expr::Var, i64)> = Vec::new();
        proof {
            assert(empty_sol@ =~= Seq::<(expr::Var, i64)>::empty());
        }
        empty_sol
    } else {
        match solve::solve_equations(&solver_eqs) {
            None => {
                return Err(ApChangeError::SolvingApChangeEquationFailed);
            },
            Some(s) => s,
        }
    };
    proof {
        generate_equations::lemma_gen_upto_wf(
            *program,
            *classifier,
            program.statements@.len() as int,
        );
        assert forall|k: int| 0 <= k < eqs@.len() implies expr::wf_eq((#[trigger] eqs@[k])@) by {
            assert(expr::views_of(eqs@)[k] == eqs@[k]@);
        }
    }
    if !expr::check_solution(&eqs, &sol) {
        return Err(ApChangeError::SolvingApChangeEquationFailed);
    }
    let info = ap_change_info::build_ap_change_info(&sol);
    Ok(info)
}

} // verus!
