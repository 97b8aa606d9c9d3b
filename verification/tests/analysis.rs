use std::collections::HashMap;

use sierra_ap_change::ap_change_info::ApChangeInfo;
use sierra_ap_change::classifier::TableClassifier;
use sierra_ap_change::program::{BranchTarget, Function, Program, Statement};
use sierra_ap_change::{calc_ap_changes, ApChange, ApChangeError, Effects, RegistryError};

fn inv(libfunc: u64, branches: Vec<BranchTarget>) -> Statement {
    Statement::Invocation { libfunc, branches }
}

fn table(entries: Vec<(u64, Option<Vec<ApChange>>)>) -> TableClassifier {
    TableClassifier { entries }
}

fn run(program: &Program, classifier: &TableClassifier) -> Result<ApChangeInfo, ApChangeError> {
    calc_ap_changes(program, classifier)
}

#[test]
fn known_chain_resolves_prefix_totals() {
    let program = Program {
        statements: vec![
            inv(10, vec![BranchTarget::Fallthrough]),
            inv(11, vec![BranchTarget::Fallthrough]),
            inv(12, vec![BranchTarget::Fallthrough]),
            Statement::Return,
        ],
        funcs: vec![Function { id: 7, entry_point: 0 }],
    };
    let classifier = table(vec![
        (10, Some(vec![ApChange::Known(2)])),
        (11, Some(vec![ApChange::Known(3)])),
        (12, Some(vec![ApChange::Known(0)])),
    ]);
    let info = run(&program, &classifier).unwrap();
    assert!(info.variable_values.is_empty());
    assert_eq!(info.function_ap_change, HashMap::from([(7u64, 5usize)]));
}

#[test]
fn analysis_is_deterministic() {
    let program = Program {
        statements: vec![
            inv(20, vec![BranchTarget::Fallthrough, BranchTarget::Statement(2)]),
            inv(21, vec![BranchTarget::Fallthrough]),
            Statement::Return,
        ],
        funcs: vec![Function { id: 1, entry_point: 0 }],
    };
    let classifier = table(vec![
        (20, Some(vec![ApChange::Known(0), ApChange::FromMetadata])),
        (21, Some(vec![ApChange::Known(5)])),
    ]);
    let a = run(&program, &classifier).unwrap();
    let b = run(&program, &classifier).unwrap();
    assert_eq!(a.variable_values, b.variable_values);
    assert_eq!(a.function_ap_change, b.function_ap_change);
}

#[test]
fn branch_align_value_forced_by_convergence() {
    let program = Program {
        statements: vec![
            inv(20, vec![BranchTarget::Fallthrough, BranchTarget::Statement(2)]),
            inv(21, vec![BranchTarget::Fallthrough]),
            Statement::Return,
        ],
        funcs: vec![Function { id: 1, entry_point: 0 }],
    };
    let classifier = table(vec![
        (20, Some(vec![ApChange::Known(0), ApChange::FromMetadata])),
        (21, Some(vec![ApChange::Known(5)])),
    ]);
    let info = run(&program, &classifier).unwrap();
    assert_eq!(info.variable_values, HashMap::from([(0usize, 5usize)]));
    assert_eq!(info.function_ap_change, HashMap::from([(1u64, 5usize)]));
}

#[test]
fn two_call_sites_share_one_function_value() {
    let program = Program {
        statements: vec![
            inv(30, vec![BranchTarget::Fallthrough]),
            inv(30, vec![BranchTarget::Fallthrough]),
            Statement::Return,
            inv(31, vec![BranchTarget::Fallthrough]),
            Statement::Return,
        ],
        funcs: vec![
            Function { id: 8, entry_point: 0 },
            Function { id: 9, entry_point: 3 },
        ],
    };
    let classifier = table(vec![
        (30, Some(vec![ApChange::FunctionCall(9)])),
        (31, Some(vec![ApChange::Known(4)])),
    ]);
    let info = run(&program, &classifier).unwrap();
    assert!(info.variable_values.is_empty());
    assert_eq!(
        info.function_ap_change,
        HashMap::from([(8u64, 8usize), (9u64, 4usize)])
    );
}

#[test]
fn locals_finalization_reserves_allocated_cells() {
    let program = Program {
        statements: vec![
            inv(40, vec![BranchTarget::Fallthrough]),
            inv(41, vec![BranchTarget::Fallthrough]),
            Statement::Return,
        ],
        funcs: vec![Function { id: 2, entry_point: 0 }],
    };
    let classifier = table(vec![
        (40, Some(vec![ApChange::AtLocalsFinalization(3)])),
        (41, Some(vec![ApChange::FinalizeLocals])),
    ]);
    let info = run(&program, &classifier).unwrap();
    assert_eq!(info.variable_values, HashMap::from([(1usize, 3usize)]));
    assert_eq!(info.function_ap_change, HashMap::from([(2u64, 3usize)]));
}

#[test]
fn conflicting_locals_paths_are_unsolvable() {
    let program = Program {
        statements: vec![
            inv(50, vec![BranchTarget::Fallthrough, BranchTarget::Statement(2)]),
            inv(51, vec![BranchTarget::Fallthrough]),
            inv(52, vec![BranchTarget::Fallthrough]),
            Statement::Return,
        ],
        funcs: vec![Function { id: 3, entry_point: 0 }],
    };
    let classifier = table(vec![
        (
            50,
            Some(vec![
                ApChange::AtLocalsFinalization(2),
                ApChange::AtLocalsFinalization(3),
            ]),
        ),
        (51, Some(vec![ApChange::Known(0)])),
        (52, Some(vec![ApChange::FinalizeLocals])),
    ]);
    let r = run(&program, &classifier);
    assert_eq!(r.unwrap_err(), ApChangeError::SolvingApChangeEquationFailed);
}

#[test]
fn inconsistent_loop_is_unsolvable() {
    let program = Program {
        statements: vec![inv(55, vec![BranchTarget::Statement(0)])],
        funcs: vec![Function { id: 4, entry_point: 0 }],
    };
    let classifier = table(vec![(55, Some(vec![ApChange::Known(1)]))]);
    let r = run(&program, &classifier);
    assert_eq!(r.unwrap_err(), ApChangeError::SolvingApChangeEquationFailed);
}

#[test]
fn balanced_loop_is_accepted() {
    let program = Program {
        statements: vec![inv(56, vec![BranchTarget::Statement(0)])],
        funcs: vec![Function { id: 4, entry_point: 0 }],
    };
    let classifier = table(vec![(56, Some(vec![ApChange::Known(0)]))]);
    let info = run(&program, &classifier).unwrap();
    assert!(info.variable_values.is_empty());
    assert!(info.function_ap_change.is_empty());
}

#[test]
fn branch_target_one_past_the_end_is_out_of_bounds() {
    let program = Program {
        statements: vec![inv(60, vec![BranchTarget::Statement(1)])],
        funcs: vec![Function { id: 5, entry_point: 0 }],
    };
    let classifier = table(vec![(60, Some(vec![ApChange::Known(0)]))]);
    let r = run(&program, &classifier);
    assert_eq!(r.unwrap_err(), ApChangeError::StatementOutOfBounds(1));
}

#[test]
fn entry_point_out_of_bounds_is_reported() {
    let program = Program {
        statements: vec![Statement::Return],
        funcs: vec![Function { id: 5, entry_point: 9 }],
    };
    let classifier = table(vec![]);
    let r = run(&program, &classifier);
    assert_eq!(r.unwrap_err(), ApChangeError::StatementOutOfBounds(9));
}

#[test]
fn unclassifiable_operation_is_an_illegal_invocation() {
    let program = Program {
        statements: vec![inv(70, vec![BranchTarget::Fallthrough]), Statement::Return],
        funcs: vec![Function { id: 6, entry_point: 0 }],
    };
    let classifier = table(vec![(70, None)]);
    let r = run(&program, &classifier);
    assert_eq!(r.unwrap_err(), ApChangeError::IllegalInvocation(0));
}

#[test]
fn wrong_effect_count_is_an_illegal_invocation() {
    let program = Program {
        statements: vec![inv(71, vec![BranchTarget::Fallthrough]), Statement::Return],
        funcs: vec![Function { id: 6, entry_point: 0 }],
    };
    let classifier = table(vec![(
        71,
        Some(vec![ApChange::Known(0), ApChange::Known(1)]),
    )]);
    let r = run(&program, &classifier);
    assert_eq!(r.unwrap_err(), ApChangeError::IllegalInvocation(0));
}

#[test]
fn missing_registry_entry_is_wrapped() {
    let program = Program {
        statements: vec![inv(99, vec![BranchTarget::Fallthrough]), Statement::Return],
        funcs: vec![Function { id: 6, entry_point: 0 }],
    };
    let classifier = table(vec![]);
    let r = run(&program, &classifier);
    assert_eq!(
        r.unwrap_err(),
        ApChangeError::ProgramRegistryError(RegistryError::MissingLibfunc(99))
    );
}

#[test]
fn unreached_statement_is_out_of_order() {
    let program = Program {
        statements: vec![Statement::Return, Statement::Return],
        funcs: vec![Function { id: 6, entry_point: 0 }],
    };
    let classifier = table(vec![]);
    let r = run(&program, &classifier);
    assert_eq!(r.unwrap_err(), ApChangeError::StatementOutOfOrder(1));
}

#[test]
fn empty_program_yields_empty_result() {
    let program = Program { statements: vec![], funcs: vec![] };
    let classifier = table(vec![]);
    let info = run(&program, &classifier).unwrap();
    assert!(info.variable_values.is_empty());
    assert!(info.function_ap_change.is_empty());
}

#[test]
fn unknown_ap_change_leaves_function_unconstrained() {
    let program = Program {
        statements: vec![inv(80, vec![BranchTarget::Fallthrough]), Statement::Return],
        funcs: vec![Function { id: 6, entry_point: 0 }],
    };
    let classifier = table(vec![(80, Some(vec![ApChange::Unknown]))]);
    let info = run(&program, &classifier).unwrap();
    assert!(info.variable_values.is_empty());
    assert!(info.function_ap_change.is_empty());
}

#[test]
fn locals_finalization_normalizes_to_known_zero() {
    let effects = Effects::of_ap_change(ApChange::AtLocalsFinalization(4));
    assert_eq!(
        effects,
        Effects { ap_change: ApChange::Known(0), locals: 4 }
    );
    let plain = Effects::of_ap_change(ApChange::Known(2));
    assert_eq!(plain, Effects { ap_change: ApChange::Known(2), locals: 0 });
}

#[test]
fn error_messages_describe_the_failure() {
    assert_eq!(
        ApChangeError::SolvingApChangeEquationFailed.message(),
        "failed solving the ap changes"
    );
    assert_eq!(
        ApChangeError::StatementOutOfBounds(1).message(),
        "found an illegal statement index during ap change calculations"
    );
}
