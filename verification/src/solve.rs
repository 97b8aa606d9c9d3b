//! The call into the external linear-equation solver.

use vstd::prelude::*;

use crate::expr::{distinct_keys, lookup, solver_binds, views_of, LinExpr, LinExprV, Var};

verus! {

/// The assignment the external equation solver produces for an equation
/// system, or `None` when it reports the system unsolvable.  The solver is a
/// deterministic computation, so its outcome is a function of the equation
/// system alone.
pub uninterp spec fn solver_outcome(eqs: Seq<LinExprV>) -> Option<Seq<(Var, i64)>>;

/// Relies on `cairo_lang_eq_solver::try_solve_equations`: it takes linear
/// expressions (each equated to zero) over non-negative unknowns and returns
/// either an assignment binding exactly the variables that occur with a
/// nonzero net coefficient, each at most once and to a non-negative value,
/// or `None` when the system is unsolvable.  No minimization target is
/// requested; ties among satisfying assignments are broken by the solver's
/// deterministic pivoting.  Every equation handed over must have a variable
/// with a nonzero net coefficient, so that the solver never sees a constraint
/// without unknowns.
#[verifier::external_body]
pub(crate) fn solve_equations(eqs: &Vec<LinExpr>) -> (r: Option<Vec<(Var, i64)>>)
    requires
        forall|i: int| 0 <= i < eqs@.len() ==> !crate::expr::net_trivial((#[trigger] eqs@[i])@),
    ensures
        (r matches Some(sol) ==> solver_outcome(views_of(eqs@)) == Some(sol@)),
        (r is None ==> solver_outcome(views_of(eqs@)) is None),
        (r matches Some(sol) ==> forall|i: int| 0 <= i < sol@.len() ==> (#[trigger] sol@[i]).1 >= 0),
        (r matches Some(sol) ==> distinct_keys(sol@)),
        (r matches Some(sol) ==> forall|v: Var|
            #[trigger] lookup(sol@, v) is Some <==> solver_binds(views_of(eqs@), v)),
{
    let mut exprs: Vec<cairo_lang_eq_solver::Expr<Var>> = Vec::new();
    for e in eqs.iter() {
        let mut ex = cairo_lang_eq_solver::Expr::from_const(e.const_term);
        for v in &e.plus {
            ex = ex + cairo_lang_eq_solver::Expr::from_var(*v);
        }
        for v in &e.minus {
            ex = ex - cairo_lang_eq_solver::Expr::from_var(*v);
        }
        exprs.push(ex);
    }
    let sol = cairo_lang_eq_solver::try_solve_equations(exprs, vec![vec![]])?;
    Some(sol.into_iter().collect())
}

} // verus!
