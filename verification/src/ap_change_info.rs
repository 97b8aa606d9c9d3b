//! The analysis result and the assembler that folds a solved assignment
//! into it.

use std::collections::HashMap;

use vstd::prelude::*;

use crate::expr::Var;
use crate::program::{FunctionId, StatementIdx};

verus! {

/// The two result maps of the analysis.
#[derive(Debug)]
pub struct ApChangeInfo {
    /// The implicit `ap` change value of each program point that required
    /// one (branch alignment, locals finalization).
    pub variable_values: HashMap<StatementIdx, usize>,
    /// The overall `ap` change of calling each function the solver
    /// resolved.
    pub function_ap_change: HashMap<FunctionId, usize>,
}

/// The mathematical value of an [`ApChangeInfo`].
#[verifier::ext_equal]
pub ghost struct ApChangeInfoV {
    pub variable_values: Map<StatementIdx, usize>,
    pub function_ap_change: Map<FunctionId, usize>,
}

impl View for ApChangeInfo {
    type V = ApChangeInfoV;

    open spec fn view(&self) -> ApChangeInfoV {
        ApChangeInfoV {
            variable_values: self.variable_values@,
            function_ap_change: self.function_ap_change@,
        }
    }
}

/// The partition of a solved assignment into the two result maps:
/// program-point variables go to the per-statement map, function variables
/// to the per-function map.
pub open spec fn spec_assemble(sol: Seq<(Var, i64)>) -> ApChangeInfoV
    decreases sol.len(),
{
    if sol.len() == 0 {
        ApChangeInfoV { variable_values: Map::empty(), function_ap_change: Map::empty() }
    } else {
        let prev = spec_assemble(sol.drop_last());
        let last = sol.last();
        match last.0 {
            Var::LibfuncImplicitApChangeVariable(idx) => ApChangeInfoV {
                variable_values: prev.variable_values.insert(idx, last.1 as usize),
                function_ap_change: prev.function_ap_change,
            },
            Var::FunctionApChange(f) => ApChangeInfoV {
                variable_values: prev.variable_values,
                function_ap_change: prev.function_ap_change.insert(f, last.1 as usize),
            },
        }
    }
}

/// Dropping the last pair of an assignment does not change the binding of
/// any other variable.
proof fn lemma_lookup_drop_last(sol: Seq<(Var, i64)>, v: Var)
    requires
        sol.len() > 0,
        sol.last().0 != v,
    ensures
        crate::expr::lookup(sol, v) == crate::expr::lookup(sol.drop_last(), v),
    decreases sol.len(),
{
    if sol.len() == 1 {
        assert(sol.drop_last() =~= Seq::<(Var, i64)>::empty());
        assert(sol.drop_first() =~= Seq::<(Var, i64)>::empty());
        assert(sol[0] == sol.last());
    } else {
        assert(sol.drop_last()[0] == sol[0]);
        if sol[0].0 != v {
            assert(sol.drop_first().last() == sol.last());
            lemma_lookup_drop_last(sol.drop_first(), v);
            assert(sol.drop_first().drop_last() =~= sol.drop_last().drop_first());
        }
    }
}

/// In an assignment binding each variable once, the last pair's variable is
/// bound to the last pair's value.
proof fn lemma_lookup_last(sol: Seq<(Var, i64)>)
    requires
        sol.len() > 0,
        crate::expr::distinct_keys(sol),
    ensures
        crate::expr::lookup(sol, sol.last().0) == Some(sol.last().1),
    decreases sol.len(),
{
    if sol[0].0 == sol.last().0 {
        if sol.len() > 1 {
            assert(sol[0].0 != sol[sol.len() - 1].0);
            assert(false);
        }
        assert(sol[0] == sol.last());
    } else {
        assert(sol.len() > 1);
        let rest = sol.drop_first();
        assert(crate::expr::distinct_keys(rest)) by {
            assert(forall|i: int, j: int|
                0 <= i < j < rest.len() ==> rest[i] == sol[i + 1] && rest[j] == sol[j + 1]);
        }
        assert(rest.last() == sol.last());
        lemma_lookup_last(rest);
    }
}

/// The result maps bind exactly the assignment's variables, each identity
/// to the one value its unknown was solved to.
pub proof fn lemma_assemble_binds(sol: Seq<(Var, i64)>)
    requires
        crate::expr::distinct_keys(sol),
    ensures
        forall|idx: StatementIdx|
            #[trigger] spec_assemble(sol).variable_values.contains_key(idx) <==> crate::expr::lookup(
                sol,
                Var::LibfuncImplicitApChangeVariable(idx),
            ) is Some,
        forall|idx: StatementIdx|
            #[trigger] crate::expr::lookup(sol, Var::LibfuncImplicitApChangeVariable(idx)) matches Some(
                x,
            ) ==> spec_assemble(sol).variable_values[idx] == x as usize,
        forall|f: FunctionId|
            #[trigger] spec_assemble(sol).function_ap_change.contains_key(f) <==> crate::expr::lookup(
                sol,
                Var::FunctionApChange(f),
            ) is Some,
        forall|f: FunctionId|
            #[trigger] crate::expr::lookup(sol, Var::FunctionApChange(f)) matches Some(x)
                ==> spec_assemble(sol).function_ap_change[f] == x as usize,
    decreases sol.len(),
{
    if sol.len() == 0 {
        assert(forall|v: Var| crate::expr::lookup(sol, v) is None);
    } else {
        let rest = sol.drop_last();
        assert(crate::expr::distinct_keys(rest)) by {
            assert(forall|i: int, j: int|
                0 <= i < j < rest.len() ==> rest[i] == sol[i] && rest[j] == sol[j]);
        }
        lemma_assemble_binds(rest);
        lemma_lookup_last(sol);
        assert(forall|v: Var|
            v != sol.last().0 ==> #[trigger] crate::expr::lookup(sol, v) == crate::expr::lookup(
                rest,
                v,
            )) by {
            assert forall|v: Var| v != sol.last().0 implies #[trigger] crate::expr::lookup(sol, v)
                == crate::expr::lookup(rest, v) by {
                lemma_lookup_drop_last(sol, v);
            }
        }
        let a = spec_assemble(sol);
        let ar = spec_assemble(rest);
        match sol.last().0 {
            Var::LibfuncImplicitApChangeVariable(li) => {
                assert(a.variable_values == ar.variable_values.insert(li, sol.last().1 as usize));
                assert(a.function_ap_change == ar.function_ap_change);
                assert forall|idx: StatementIdx| #[trigger] a.variable_values.contains_key(idx)
                    <==> crate::expr::lookup(
                    sol,
                    Var::LibfuncImplicitApChangeVariable(idx),
                ) is Some by {
                    if idx != li {
                        assert(Var::LibfuncImplicitApChangeVariable(idx) != sol.last().0);
                    }
                }
                assert forall|f: FunctionId| #[trigger] a.function_ap_change.contains_key(f)
                    <==> crate::expr::lookup(sol, Var::FunctionApChange(f)) is Some by {
                    assert(Var::FunctionApChange(f) != sol.last().0);
                }
            },
            Var::FunctionApChange(lf) => {
                assert(a.function_ap_change == ar.function_ap_change.insert(
                    lf,
                    sol.last().1 as usize,
                ));
                assert(a.variable_values == ar.variable_values);
                assert forall|f: FunctionId| #[trigger] a.function_ap_change.contains_key(f)
                    <==> crate::expr::lookup(sol, Var::FunctionApChange(f)) is Some by {
                    if f != lf {
                        assert(Var::FunctionApChange(f) != sol.last().0);
                    }
                }
                assert forall|idx: StatementIdx| #[trigger] a.variable_values.contains_key(idx)
                    <==> crate::expr::lookup(
                    sol,
                    Var::LibfuncImplicitApChangeVariable(idx),
                ) is Some by {
                    assert(Var::LibfuncImplicitApChangeVariable(idx) != sol.last().0);
                }
            },
        }
    }
}

/// Folds a solved assignment into the two result maps.
pub fn build_ap_change_info(sol: &Vec<(Var, i64)>) -> (r: ApChangeInfo)
    requires
        forall|i: int| 0 <= i < sol@.len() ==> (#[trigger] sol@[i]).1 >= 0,
    ensures
        r@ == spec_assemble(sol@),
{
    let mut variable_values: HashMap<StatementIdx, usize> = HashMap::new();
    let mut function_ap_change: HashMap<FunctionId, usize> = HashMap::new();
    let n = sol.len();
    let mut i: usize = 0;
    while i < n
        invariant
            n == sol@.len(),
            i <= n,
            forall|k: int| 0 <= k < sol@.len() ==> (#[trigger] sol@[k]).1 >= 0,
            spec_assemble(sol@.take(i as int)) == (ApChangeInfoV {
                variable_values: variable_values@,
                function_ap_change: function_ap_change@,
            }),
        decreases n - i,
    {
        proof {
            assert(sol@.take(i as int + 1).drop_last() =~= sol@.take(i as int));
            assert(sol@.take(i as int + 1).last() == sol@[i as int]);
        }
        let value = sol[i].1 as usize;
        match sol[i].0 {
            Var::LibfuncImplicitApChangeVariable(idx) => {
                variable_values.insert(idx, value);
            },
            Var::FunctionApChange(f) => {
                function_ap_change.insert(f, value);
            },
        }
        proof {
            assert(spec_assemble(sol@.take(i as int + 1)) =~= (ApChangeInfoV {
                variable_values: variable_values@,
                function_ap_change: function_ap_change@,
            }));
        }
        i = i + 1;
    }
    proof {
        assert(sol@.take(n as int) =~= sol@);
    }
    ApChangeInfo { variable_values, function_ap_change }
}

} // verus!
