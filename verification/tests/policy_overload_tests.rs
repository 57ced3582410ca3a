use lib::policy_overload::{
    PhaseOverloadCandidate, PolicyActualFrame, PolicyFormalFrame, PolicyOverloadCandidate, PolicyOverloadSelection,
    select_by_policy_product, select_policy_overload,
};
use lib::policy_pair::{
    FormalPolicyPattern, OutputModeDemand, PatternComponentPolicy, Phase, PolicyMode, PolicyPair, PolicyStage,
    StageSet, ValueComponentPolicy, ValuePresence,
};

fn candidate(id: u32, self_mode: PolicyMode, args: Vec<PolicyMode>, is_delete: bool) -> PolicyOverloadCandidate<u32> {
    PolicyOverloadCandidate {
        id,
        formal_frame: PolicyFormalFrame { self_mode, explicit_parameter_modes: args },
        result_policy: PolicyMode::Plain,
        is_delete,
    }
}

fn actual(caller: PolicyMode, args: Vec<PolicyMode>) -> PolicyActualFrame {
    PolicyActualFrame { caller_value: caller, explicit_arguments: args }
}

#[test]
fn exact_self_mode_wins() {
    let candidates = vec![
        candidate(1, PolicyMode::Const, vec![], false),
        candidate(2, PolicyMode::Mut, vec![], false),
    ];
    let r = select_by_policy_product(&candidates, &actual(PolicyMode::Mut, vec![]), OutputModeDemand(PolicyMode::Plain));
    assert_eq!(r, PolicyOverloadSelection::Selected(2));
}

#[test]
fn plain_beats_the_opposite_mode() {
    let candidates = vec![
        candidate(1, PolicyMode::Plain, vec![PolicyMode::Plain], false),
        candidate(2, PolicyMode::Plain, vec![PolicyMode::Mut], false),
    ];
    let r = select_by_policy_product(
        &candidates,
        &actual(PolicyMode::Plain, vec![PolicyMode::Const]),
        OutputModeDemand(PolicyMode::Plain),
    );
    assert_eq!(r, PolicyOverloadSelection::Selected(1));
}

#[test]
fn equal_candidates_are_ambiguous() {
    let candidates = vec![
        candidate(1, PolicyMode::Const, vec![PolicyMode::Const], false),
        candidate(2, PolicyMode::Const, vec![PolicyMode::Const], false),
    ];
    let r = select_by_policy_product(
        &candidates,
        &actual(PolicyMode::Const, vec![PolicyMode::Const]),
        OutputModeDemand(PolicyMode::Plain),
    );
    assert_eq!(r, PolicyOverloadSelection::Ambiguous(vec![1, 2]));
}

#[test]
fn incomparable_candidates_are_ambiguous() {
    let candidates = vec![
        candidate(1, PolicyMode::Const, vec![PolicyMode::Mut], false),
        candidate(2, PolicyMode::Mut, vec![PolicyMode::Const], false),
    ];
    let r = select_by_policy_product(
        &candidates,
        &actual(PolicyMode::Const, vec![PolicyMode::Const]),
        OutputModeDemand(PolicyMode::Plain),
    );
    assert_eq!(r, PolicyOverloadSelection::Ambiguous(vec![1, 2]));
}

#[test]
fn selected_delete_is_rejected() {
    let candidates = vec![
        candidate(1, PolicyMode::Mut, vec![], true),
        candidate(2, PolicyMode::Const, vec![], false),
    ];
    let r = select_by_policy_product(&candidates, &actual(PolicyMode::Mut, vec![]), OutputModeDemand(PolicyMode::Plain));
    assert_eq!(r, PolicyOverloadSelection::RejectedByDelete(1));
}

#[test]
fn arity_mismatch_leaves_no_candidate() {
    let candidates = vec![candidate(1, PolicyMode::Plain, vec![PolicyMode::Plain], false)];
    let r = select_by_policy_product(&candidates, &actual(PolicyMode::Plain, vec![]), OutputModeDemand(PolicyMode::Plain));
    assert_eq!(r, PolicyOverloadSelection::NoCandidate);
}

#[test]
fn result_policy_breaks_a_frame_tie() {
    let mut a = candidate(1, PolicyMode::Plain, vec![], false);
    let mut b = candidate(2, PolicyMode::Plain, vec![], false);
    a.result_policy = PolicyMode::Const;
    b.result_policy = PolicyMode::Mut;
    let r = select_by_policy_product(&[a, b], &actual(PolicyMode::Plain, vec![]), OutputModeDemand(PolicyMode::Mut));
    assert_eq!(r, PolicyOverloadSelection::Selected(2));
}

fn staged(id: u32, stage: PolicyStage, fully_admissible: bool) -> PhaseOverloadCandidate<u32> {
    PhaseOverloadCandidate { candidate: candidate(id, PolicyMode::Plain, vec![], false), stage, fully_admissible }
}

#[test]
fn phase_prefers_the_most_specific_visible_stage() {
    let candidates = vec![staged(1, PolicyStage::Compile, true), staged(2, PolicyStage::Meta, true)];
    let r = select_policy_overload(
        &candidates,
        &actual(PolicyMode::Plain, vec![]),
        OutputModeDemand(PolicyMode::Plain),
        Phase::OpenStatic,
    );
    assert_eq!(r, PolicyOverloadSelection::Selected(2));
    let r = select_policy_overload(
        &[staged(1, PolicyStage::Compile, true), staged(3, PolicyStage::Seal, true)],
        &actual(PolicyMode::Plain, vec![]),
        OutputModeDemand(PolicyMode::Plain),
        Phase::SealStatic,
    );
    assert_eq!(r, PolicyOverloadSelection::Selected(3));
}

#[test]
fn phase_selection_skips_invisible_and_inadmissible_candidates() {
    let candidates = vec![
        staged(1, PolicyStage::Runtime, true),
        staged(2, PolicyStage::Meta, false),
        staged(3, PolicyStage::Compile, true),
    ];
    let r = select_policy_overload(
        &candidates,
        &actual(PolicyMode::Plain, vec![]),
        OutputModeDemand(PolicyMode::Plain),
        Phase::OpenStatic,
    );
    assert_eq!(r, PolicyOverloadSelection::Selected(3));
    let r = select_policy_overload(
        &[staged(1, PolicyStage::Meta, true)],
        &actual(PolicyMode::Plain, vec![]),
        OutputModeDemand(PolicyMode::Plain),
        Phase::Runtime,
    );
    assert_eq!(r, PolicyOverloadSelection::NoCandidate);
}

#[test]
fn first_formal_is_the_self_position() {
    let pair = PolicyPair {
        value: ValueComponentPolicy { stages: StageSet::from_stages(&[PolicyStage::Runtime]), presence: ValuePresence::Present },
        pattern: PatternComponentPolicy { stages: StageSet::from_stages(&[PolicyStage::Compile]) },
    };
    let formals = [
        FormalPolicyPattern { effective_pair: pair, mode: PolicyMode::Mut },
        FormalPolicyPattern { effective_pair: pair, mode: PolicyMode::Const },
        FormalPolicyPattern { effective_pair: pair, mode: PolicyMode::Plain },
    ];
    let c = PolicyOverloadCandidate::from_formal_patterns(7u32, &formals, PolicyMode::Const, false);
    assert_eq!(c.formal_frame.self_mode, PolicyMode::Mut);
    assert_eq!(c.formal_frame.explicit_parameter_modes, vec![PolicyMode::Const, PolicyMode::Plain]);
    let empty = PolicyOverloadCandidate::from_formal_patterns(8u32, &[], PolicyMode::Plain, true);
    assert_eq!(empty.formal_frame.self_mode, PolicyMode::Plain);
    assert!(empty.formal_frame.explicit_parameter_modes.is_empty());
    assert!(empty.is_delete);
}
