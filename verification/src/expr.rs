//! Linear equations over the analysis' unknown variables.
//!
//! An equation is a linear expression equated to zero: an integer constant
//! plus the variables listed in `plus`, minus the variables listed in
//! `minus` (a variable may be listed more than once).  An assignment is a
//! list of `(variable, value)` pairs; a variable that an assignment does not
//! bind denotes zero.

use vstd::prelude::*;

use crate::program::{FunctionId, StatementIdx};

verus! {

/// Upper bound on the number of variable occurrences on each side of an
/// equation that the solution checker accepts; it keeps the checker's
/// accumulator far from overflow.
pub const MAX_TERMS: usize = 0x8000;

/// An unknown variable of the equation system.
#[derive(Clone, Copy, Debug, PartialEq, Eq, Hash, Structural)]
pub enum Var {
    /// The implicit `ap` change of the statement at the given program point
    /// (branch alignment, locals finalization).
    LibfuncImplicitApChangeVariable(StatementIdx),
    /// The overall `ap` change of calling the given function.
    FunctionApChange(FunctionId),
}

/// A linear expression equated to zero: `const_term + sum(plus) - sum(minus) == 0`.
#[derive(Clone, Debug)]
pub struct LinExpr {
    /// The constant term.
    pub const_term: i32,
    /// Variables that occur with coefficient `+1` (once per occurrence).
    pub plus: Vec<Var>,
    /// Variables that occur with coefficient `-1` (once per occurrence).
    pub minus: Vec<Var>,
}

/// The mathematical value of a [`LinExpr`].
#[verifier::ext_equal]
pub ghost struct LinExprV {
    pub const_term: int,
    pub plus: Seq<Var>,
    pub minus: Seq<Var>,
}

impl View for LinExpr {
    type V = LinExprV;

    open spec fn view(&self) -> LinExprV {
        LinExprV { const_term: self.const_term as int, plus: self.plus@, minus: self.minus@ }
    }
}

/// The values of a sequence of equations.
pub open spec fn views_of(eqs: Seq<LinExpr>) -> Seq<LinExprV> {
    eqs.map_values(|e: LinExpr| e@)
}

/// The value an assignment binds a variable to, if any: the value paired
/// with the variable's first occurrence.
pub open spec fn lookup(sol: Seq<(Var, i64)>, v: Var) -> Option<i64>
    decreases sol.len(),
{
    if sol.len() == 0 {
        None
    } else if sol[0].0 == v {
        Some(sol[0].1)
    } else {
        lookup(sol.drop_first(), v)
    }
}

/// The value an assignment gives a variable; an unbound variable denotes
/// zero.
pub open spec fn lookup_val(sol: Seq<(Var, i64)>, v: Var) -> int {
    match lookup(sol, v) {
        Some(x) => x as int,
        None => 0,
    }
}

/// The sum of the values of the listed variable occurrences.
pub open spec fn sum_vals(vars: Seq<Var>, sol: Seq<(Var, i64)>) -> int
    decreases vars.len(),
{
    if vars.len() == 0 {
        0
    } else {
        lookup_val(sol, vars[0]) + sum_vals(vars.drop_first(), sol)
    }
}

/// The value of an equation's left-hand side under an assignment.
pub open spec fn eval(e: LinExprV, sol: Seq<(Var, i64)>) -> int {
    e.const_term + sum_vals(e.plus, sol) - sum_vals(e.minus, sol)
}

/// Whether an assignment satisfies one equation exactly.
pub open spec fn eq_holds(e: LinExprV, sol: Seq<(Var, i64)>) -> bool {
    eval(e, sol) == 0
}

/// Whether an assignment satisfies every equation of a system exactly.
pub open spec fn satisfies(sol: Seq<(Var, i64)>, eqs: Seq<LinExprV>) -> bool {
    forall|i: int| 0 <= i < eqs.len() ==> eq_holds(#[trigger] eqs[i], sol)
}

/// How often a variable occurs in a list of occurrences.
pub open spec fn occurrences(vars: Seq<Var>, v: Var) -> int
    decreases vars.len(),
{
    if vars.len() == 0 {
        0
    } else {
        occurrences(vars.drop_first(), v) + if vars[0] == v { 1int } else { 0int }
    }
}

/// The net coefficient of a variable in one equation.
pub open spec fn net_coef(e: LinExprV, v: Var) -> int {
    occurrences(e.plus, v) - occurrences(e.minus, v)
}

/// Whether a variable occurs with a nonzero net coefficient in at least one
/// equation of a system: exactly those variables receive a value from the
/// equation solver.
pub open spec fn solver_binds(eqs: Seq<LinExprV>, v: Var) -> bool {
    exists|i: int| 0 <= i < eqs.len() && net_coef(#[trigger] eqs[i], v) != 0
}

/// Whether every variable's net coefficient in an equation is zero; such
/// an equation constrains nothing but its constant term.
pub open spec fn net_trivial(e: LinExprV) -> bool {
    forall|v: Var| #[trigger] net_coef(e, v) == 0
}

/// The equations of a system that still constrain at least one variable;
/// only these are handed to the external solver.
pub open spec fn nontrivial_eqs(eqs: Seq<LinExprV>) -> Seq<LinExprV>
    decreases eqs.len(),
{
    if eqs.len() == 0 {
        seq![]
    } else {
        let rest = nontrivial_eqs(eqs.drop_last());
        if net_trivial(eqs.last()) {
            rest
        } else {
            rest.push(eqs.last())
        }
    }
}

/// A variable that does not occur in a list occurs zero times in it.
proof fn lemma_occurrences_not_contains(vars: Seq<Var>, v: Var)
    requires
        !vars.contains(v),
    ensures
        occurrences(vars, v) == 0,
    decreases vars.len(),
{
    if vars.len() > 0 {
        assert(vars[0] != v);
        assert(forall|j: int| 0 <= j < vars.drop_first().len() ==> vars.drop_first()[j] == vars[j
            + 1]);
        assert(!vars.drop_first().contains(v));
        lemma_occurrences_not_contains(vars.drop_first(), v);
    }
}

/// How often a variable occurs in a list.
fn count_in(vars: &Vec<Var>, v: Var) -> (r: usize)
    ensures
        r == occurrences(vars@, v),
{
    let n = vars.len();
    let mut acc: usize = 0;
    let mut i: usize = 0;
    proof {
        assert(vars@.skip(0) =~= vars@);
        lemma_occurrences_nonneg(vars@, v);
    }
    while i < n
        invariant
            n == vars@.len(),
            i <= n,
            acc <= i,
            occurrences(vars@, v) == acc + occurrences(vars@.skip(i as int), v),
            occurrences(vars@.skip(i as int), v) >= 0,
        decreases n - i,
    {
        proof {
            assert(vars@.skip(i as int)[0] == vars@[i as int]);
            assert(vars@.skip(i as int).drop_first() =~= vars@.skip(i as int + 1));
            lemma_occurrences_nonneg(vars@.skip(i as int + 1), v);
        }
        if vars[i] == v {
            acc = acc + 1;
        }
        i = i + 1;
    }
    proof {
        assert(vars@.skip(n as int) =~= Seq::<Var>::empty());
    }
    acc
}

/// A variable occurs a non-negative number of times in a list.
proof fn lemma_occurrences_nonneg(vars: Seq<Var>, v: Var)
    ensures
        occurrences(vars, v) >= 0,
    decreases vars.len(),
{
    if vars.len() > 0 {
        lemma_occurrences_nonneg(vars.drop_first(), v);
    }
}

/// Whether an equation constrains at least one variable.
pub fn has_net_var(e: &LinExpr) -> (r: bool)
    ensures
        r == !net_trivial(e@),
{
    let mut i: usize = 0;
    while i < e.plus.len()
        invariant
            i <= e@.plus.len(),
            forall|j: int| 0 <= j < i ==> net_coef(e@, e@.plus[j]) == 0,
        decreases e@.plus.len() - i,
    {
        let v = e.plus[i];
        if count_in(&e.plus, v) != count_in(&e.minus, v) {
            proof {
                assert(net_coef(e@, v) != 0);
            }
            return true;
        }
        i = i + 1;
    }
    let mut i2: usize = 0;
    while i2 < e.minus.len()
        invariant
            i2 <= e@.minus.len(),
            forall|j: int| 0 <= j < e@.plus.len() ==> net_coef(e@, e@.plus[j]) == 0,
            forall|j: int| 0 <= j < i2 ==> net_coef(e@, e@.minus[j]) == 0,
        decreases e@.minus.len() - i2,
    {
        let v = e.minus[i2];
        if count_in(&e.plus, v) != count_in(&e.minus, v) {
            proof {
                assert(net_coef(e@, v) != 0);
            }
            return true;
        }
        i2 = i2 + 1;
    }
    proof {
        assert forall|v: Var| #[trigger] net_coef(e@, v) == 0 by {
            if e@.plus.contains(v) {
                let j = choose|j: int| 0 <= j < e@.plus.len() && e@.plus[j] == v;
                assert(net_coef(e@, e@.plus[j]) == 0);
            } else if e@.minus.contains(v) {
                let j = choose|j: int| 0 <= j < e@.minus.len() && e@.minus[j] == v;
                assert(net_coef(e@, e@.minus[j]) == 0);
            } else {
                lemma_occurrences_not_contains(e@.plus, v);
                lemma_occurrences_not_contains(e@.minus, v);
            }
        }
    }
    false
}

/// Copies a list of variable occurrences.
pub(crate) fn copy_var_list(v: &Vec<Var>) -> (r: Vec<Var>)
    ensures
        r@ == v@,
{
    let mut r: Vec<Var> = Vec::new();
    let mut i: usize = 0;
    while i < v.len()
        invariant
            i <= v@.len(),
            r@ == v@.take(i as int),
        decreases v@.len() - i,
    {
        r.push(v[i]);
        proof {
            assert(v@.take(i as int + 1) =~= v@.take(i as int).push(v@[i as int]));
        }
        i = i + 1;
    }
    proof {
        assert(v@.take(v@.len() as int) =~= v@);
    }
    r
}

/// Copies an equation.
pub fn copy_equation(e: &LinExpr) -> (r: LinExpr)
    ensures
        r@ == e@,
{
    LinExpr {
        const_term: e.const_term,
        plus: copy_var_list(&e.plus),
        minus: copy_var_list(&e.minus),
    }
}

/// Whether an assignment binds each variable at most once.
pub open spec fn distinct_keys(sol: Seq<(Var, i64)>) -> bool {
    forall|i: int, j: int| 0 <= i < j < sol.len() ==> (#[trigger] sol[i]).0 != (#[trigger] sol[j]).0
}

/// Size bounds under which the solution checker's arithmetic cannot
/// overflow.
pub open spec fn wf_eq(e: LinExprV) -> bool {
    e.plus.len() <= MAX_TERMS && e.minus.len() <= MAX_TERMS
}

/// The value an assignment binds a variable to, if any.
pub fn find_value(sol: &Vec<(Var, i64)>, v: Var) -> (r: Option<i64>)
    ensures
        r == lookup(sol@, v),
{
    let n = sol.len();
    let mut i: usize = 0;
    proof {
        assert(sol@.skip(0) =~= sol@);
    }
    while i < n
        invariant
            n == sol@.len(),
            i <= n,
            lookup(sol@, v) == lookup(sol@.skip(i as int), v),
        decreases n - i,
    {
        proof {
            assert(sol@.skip(i as int)[0] == sol@[i as int]);
            assert(sol@.skip(i as int).drop_first() =~= sol@.skip(i as int + 1));
        }
        if sol[i].0 == v {
            return Some(sol[i].1);
        }
        i = i + 1;
    }
    proof {
        assert(sol@.skip(n as int) =~= Seq::<(Var, i64)>::empty());
    }
    None
}

/// The sum of the values of the listed variable occurrences, with unbound
/// variables counting as zero.
fn sum_values(vars: &Vec<Var>, sol: &Vec<(Var, i64)>) -> (r: i128)
    requires
        vars@.len() <= MAX_TERMS,
    ensures
        r == sum_vals(vars@, sol@),
        -0x80000000000000000000 <= r <= 0x80000000000000000000,
{
    let n = vars.len();
    let mut acc: i128 = 0;
    let mut i: usize = 0;
    proof {
        assert(vars@.skip(0) =~= vars@);
    }
    while i < n
        invariant
            n == vars@.len(),
            n <= MAX_TERMS,
            i <= n,
            -0x10000000000000000 * (i as int) <= acc <= 0x10000000000000000 * (i as int),
            sum_vals(vars@, sol@) == acc + sum_vals(vars@.skip(i as int), sol@),
        decreases n - i,
    {
        proof {
            assert(vars@.skip(i as int)[0] == vars@[i as int]);
            assert(vars@.skip(i as int).drop_first() =~= vars@.skip(i as int + 1));
        }
        let x: i64 = match find_value(sol, vars[i]) {
            Some(x) => x,
            None => 0,
        };
        acc = acc + x as i128;
        i = i + 1;
    }
    proof {
        assert(vars@.skip(n as int) =~= Seq::<Var>::empty());
    }
    acc
}

/// Checks that an assignment satisfies every equation of a system exactly.
///
/// A variable the assignment does not bind counts as zero.
pub fn check_solution(eqs: &Vec<LinExpr>, sol: &Vec<(Var, i64)>) -> (r: bool)
    requires
        forall|i: int| 0 <= i < eqs@.len() ==> wf_eq((#[trigger] eqs@[i])@),
    ensures
        r == satisfies(sol@, views_of(eqs@)),
{
    let n = eqs.len();
    let mut i: usize = 0;
    while i < n
        invariant
            n == eqs@.len(),
            i <= n,
            forall|k: int| 0 <= k < eqs@.len() ==> wf_eq((#[trigger] eqs@[k])@),
            forall|k: int| 0 <= k < i ==> eq_holds(#[trigger] views_of(eqs@)[k], sol@),
        decreases n - i,
    {
        let e = &eqs[i];
        let sp = sum_values(&e.plus, sol);
        let sm = sum_values(&e.minus, sol);
        let total: i128 = e.const_term as i128 + sp - sm;
        proof {
            assert(views_of(eqs@)[i as int] == eqs@[i as int]@);
        }
        if total != 0 {
            proof {
                assert(!eq_holds(views_of(eqs@)[i as int], sol@));
            }
            return false;
        }
        i = i + 1;
    }
    true
}

} // verus!
