use lib::model::{Provenance, SemanticValueId, SymbolId, TypeValueId};
use lib::policy_pair::{
    P1Projection, PatternComponentPolicy, PolicyMode, PolicyPair, PolicyResultEntry, PolicyStage,
    PolicyView, ResultPolicyDemand, StageSet, ValueComponentPolicy, ValuePresence,
};
use lib::policy_transition::{
    assemble_transition_results, compare_policy_transition_candidates, elaborate_value_binding_p1,
    invoke_resolved_policy_bridge, project_transition_policy_domain, qualify_policy_bridge,
    resolve_policy_bridge, validate_runtime_transition, BridgeQualification, OrdinaryCallableTypeInput,
    OrdinaryCallableTypeOutput, P1AssemblyFailure, P1Elaboration, P1ElaborationFailure, P1Origin,
    PolicyBridgeBody, PolicyBridgeEffect, PolicyBridgeResolution, PolicyPartialOrdering,
    PolicyTransitionCallable, PolicyTransitionFailure, PolicyTransitionRequest,
    PolicyTransitionRequestFailure, PrototypeTransitionResultCarrier, SemanticValueRef,
    TransitionTypeExpectation,
};
use lib::policy_migration::{
    elaborate_pure_type_binding_p1, elaborate_value_binding_p1 as migration_value_binding_p1,
    P1ElaborationFailure as MigrationFailure, P1Origin as MigrationOrigin, PolicyMigrationRequest,
    PolicyMigrationRequestFailure as F, SemanticValueRef as MigrationValueRef,
};

fn prov(text: &str) -> Provenance {
    Provenance::new(text.to_string())
}

fn stages(list: &[PolicyStage]) -> StageSet {
    StageSet::from_stages(list)
}

fn pair(value: &[PolicyStage], presence: ValuePresence, pattern: &[PolicyStage]) -> PolicyPair {
    PolicyPair {
        value: ValueComponentPolicy { stages: stages(value), presence },
        pattern: PatternComponentPolicy { stages: stages(pattern) },
    }
}

fn compile_static() -> PolicyPair {
    pair(&[PolicyStage::Compile], ValuePresence::Present, &[PolicyStage::Compile])
}

fn runtime_target() -> PolicyPair {
    pair(&[PolicyStage::Runtime], ValuePresence::Present, &[PolicyStage::Compile])
}

fn request() -> PolicyTransitionRequest {
    PolicyTransitionRequest::new(
        PolicyView { pair: compile_static(), mode: PolicyMode::Plain },
        ResultPolicyDemand { pair_query: P1Projection::Pair(runtime_target()), mode: PolicyMode::Plain },
        TypeValueId(7),
        SemanticValueId(1),
        prov("request"),
    )
    .unwrap()
}

fn candidate(id: u64) -> PolicyTransitionCallable<u64> {
    PolicyTransitionCallable {
        id,
        input_type: OrdinaryCallableTypeInput::Any,
        output_type: OrdinaryCallableTypeOutput::SameAsInput,
        input_policy: compile_static(),
        output_policy: runtime_target(),
        input_mode: PolicyMode::Plain,
        output_mode: PolicyMode::Plain,
        ordinary_fully_admissible: true,
        prototype_is_fallback: false,
        prototype_pattern_specificity: 0,
        is_delete: false,
        body: PolicyBridgeBody::BuiltinValueCopy,
    }
}

fn no_expectation() -> TransitionTypeExpectation {
    TransitionTypeExpectation { required_output_type: None }
}

#[test]
fn transition_request_accepts_static_to_runtime() {
    let r = request();
    assert_eq!(*r.source_policy(), compile_static());
    assert_eq!(*r.target_pair(), runtime_target());
    assert_eq!(r.source_type(), TypeValueId(7));
    assert_eq!(r.source_value(), SemanticValueId(1));
    let migration = PolicyMigrationRequest::from_atomic_runtime(&r);
    assert_eq!(*migration.target_pair(), runtime_target());
    assert_eq!(migration.source_value(), SemanticValueId(1));
}

#[test]
fn transition_request_rejects_runtime_source() {
    let source = pair(&[PolicyStage::Compile, PolicyStage::Runtime], ValuePresence::Present, &[PolicyStage::Compile]);
    let r = PolicyTransitionRequest::new(
        PolicyView { pair: source, mode: PolicyMode::Plain },
        ResultPolicyDemand { pair_query: P1Projection::Pair(runtime_target()), mode: PolicyMode::Plain },
        TypeValueId(7),
        SemanticValueId(1),
        prov("request"),
    );
    assert_eq!(r.unwrap_err(), PolicyTransitionRequestFailure::SelectedInputContainsRuntime);
}

#[test]
fn transition_request_rejects_static_pattern_mismatch() {
    let source = pair(&[PolicyStage::Meta], ValuePresence::Present, &[PolicyStage::Compile]);
    let r = PolicyTransitionRequest::new(
        PolicyView { pair: source, mode: PolicyMode::Plain },
        ResultPolicyDemand { pair_query: P1Projection::Pair(runtime_target()), mode: PolicyMode::Plain },
        TypeValueId(7),
        SemanticValueId(1),
        prov("request"),
    );
    assert_eq!(
        r.unwrap_err(),
        PolicyTransitionRequestFailure::SourceStaticPatternStageMismatch {
            source_static: stages(&[PolicyStage::Meta]),
            source_pattern: stages(&[PolicyStage::Compile]),
        }
    );
}

#[test]
fn transition_request_rejects_non_runtime_target() {
    let target = compile_static();
    let r = PolicyTransitionRequest::new(
        PolicyView { pair: compile_static(), mode: PolicyMode::Plain },
        ResultPolicyDemand { pair_query: P1Projection::Pair(target), mode: PolicyMode::Plain },
        TypeValueId(7),
        SemanticValueId(1),
        prov("request"),
    );
    assert_eq!(
        r.unwrap_err(),
        PolicyTransitionRequestFailure::TargetDoesNotRequireRuntimeOnly {
            target_value_stages: stages(&[PolicyStage::Compile]),
            target_value_presence: ValuePresence::Present,
        }
    );
}

fn value_entry() -> PolicyResultEntry<SemanticValueRef, u64> {
    PolicyResultEntry {
        value: Some(SemanticValueRef { id: SemanticValueId(1), type_value: TypeValueId(7) }),
        pattern: 10,
        view: PolicyView { pair: compile_static(), mode: PolicyMode::Plain },
    }
}

#[test]
fn omitted_p1_keeps_the_complete_result() {
    let result = vec![value_entry()];
    match elaborate_value_binding_p1(&result, None, prov("bind")).unwrap() {
        P1Elaboration::Projected { origin, requested, selected } => {
            assert_eq!(origin, P1Origin::Inferred);
            assert_eq!(requested, None);
            assert_eq!(selected, result);
        }
        other => panic!("unexpected elaboration {:?}", other),
    }
}

#[test]
fn empty_result_is_rejected() {
    let result: Vec<PolicyResultEntry<SemanticValueRef, u64>> = Vec::new();
    assert_eq!(
        elaborate_value_binding_p1(&result, None, prov("bind")).unwrap_err(),
        P1ElaborationFailure::EmptyResult
    );
}

#[test]
fn unmet_runtime_query_prepares_one_migration_demand() {
    let result = vec![value_entry()];
    let query = P1Projection::Pair(runtime_target());
    match elaborate_value_binding_p1(&result, Some(&query), prov("bind")).unwrap() {
        P1Elaboration::AtomicRuntimeMigration { requested, demands } => {
            assert_eq!(requested, query);
            assert_eq!(demands.len(), 1);
            let r = &demands[0].request;
            assert_eq!(*r.source_policy(), compile_static());
            assert_eq!(*r.target_pair(), runtime_target());
            assert_eq!(r.source_type(), TypeValueId(7));
            assert_eq!(r.source_value(), SemanticValueId(1));
            assert_eq!(*r.provenance(), prov("bind"));
        }
        other => panic!("unexpected elaboration {:?}", other),
    }
}

#[test]
fn met_query_projects_without_migration() {
    let result = vec![value_entry()];
    let query = P1Projection::Pair(compile_static());
    match elaborate_value_binding_p1(&result, Some(&query), prov("bind")).unwrap() {
        P1Elaboration::Projected { origin, selected, .. } => {
            assert_eq!(origin, P1Origin::Explicit);
            assert_eq!(selected.len(), 1);
        }
        other => panic!("unexpected elaboration {:?}", other),
    }
}

#[test]
fn unmet_static_query_is_not_a_migration() {
    let result = vec![value_entry()];
    let query = P1Projection::Pair(pair(&[PolicyStage::Meta], ValuePresence::Present, &[PolicyStage::Meta]));
    assert_eq!(
        elaborate_value_binding_p1(&result, Some(&query), prov("bind")).unwrap_err(),
        P1ElaborationFailure::ProjectionUnavailableOutsideAtomicRuntimeMigration { requested: query }
    );
}

#[test]
fn runtime_transition_validation_errors() {
    let source = compile_static();
    let overlap = pair(&[PolicyStage::Runtime], ValuePresence::Present, &[PolicyStage::Runtime]);
    assert_eq!(
        validate_runtime_transition(&source, &overlap).unwrap_err(),
        PolicyTransitionFailure::ValuePatternStageOverlap { overlap: stages(&[PolicyStage::Runtime]) }
    );
    let changed = pair(&[PolicyStage::Runtime], ValuePresence::Present, &[PolicyStage::Meta]);
    assert_eq!(
        validate_runtime_transition(&source, &changed).unwrap_err(),
        PolicyTransitionFailure::PatternPolicyChanged {
            source: PatternComponentPolicy { stages: stages(&[PolicyStage::Compile]) },
            target: PatternComponentPolicy { stages: stages(&[PolicyStage::Meta]) },
        }
    );
    assert_eq!(validate_runtime_transition(&source, &runtime_target()), Ok(()));
    let absent = pair(&[], ValuePresence::Absent, &[PolicyStage::Compile]);
    assert_eq!(
        validate_runtime_transition(&absent, &runtime_target()).unwrap_err(),
        PolicyTransitionFailure::SourceValueAbsent
    );
}

#[test]
fn transition_domain_keeps_alternatives() {
    let query = pair(&[], ValuePresence::Optional, &[]);
    let available = pair(&[PolicyStage::Meta], ValuePresence::Present, &[PolicyStage::Meta]);
    assert_eq!(project_transition_policy_domain(&query, &available), Some(available));
    let absent = pair(&[], ValuePresence::Absent, &[]);
    assert_eq!(project_transition_policy_domain(&absent, &available), None);
}

#[test]
fn single_admissible_bridge_is_selected() {
    let r = request();
    let candidates = vec![candidate(1)];
    match resolve_policy_bridge(&r, &candidates, no_expectation()) {
        PolicyBridgeResolution::Selected(selected) => {
            assert_eq!(selected.callable, candidate(1));
            assert_eq!(selected.result_type, TypeValueId(7));
            assert_eq!(selected.complete_result_view, PolicyView { pair: runtime_target(), mode: PolicyMode::Plain });
            assert_eq!(selected.validated_output_endpoint, runtime_target());
        }
        other => panic!("unexpected resolution {:?}", other),
    }
}

#[test]
fn equal_bridges_are_ambiguous() {
    let r = request();
    let candidates = vec![candidate(1), candidate(2)];
    assert_eq!(resolve_policy_bridge(&r, &candidates, no_expectation()), PolicyBridgeResolution::Ambiguous(vec![1, 2]));
    assert_eq!(qualify_policy_bridge(&r, &candidates, no_expectation()), BridgeQualification::Ambiguous(vec![1, 2]));
}

#[test]
fn deleted_winner_rejects() {
    let r = request();
    let mut deleted = candidate(3);
    deleted.is_delete = true;
    assert_eq!(resolve_policy_bridge(&r, &[deleted], no_expectation()), PolicyBridgeResolution::RejectedByDelete(3));
}

#[test]
fn fallback_is_suppressed_by_ordinary_candidate() {
    let r = request();
    let mut fallback = candidate(1);
    fallback.prototype_is_fallback = true;
    let ordinary = candidate(2);
    match resolve_policy_bridge(&r, &[fallback, ordinary], no_expectation()) {
        PolicyBridgeResolution::Selected(selected) => assert_eq!(selected.callable.id, 2),
        other => panic!("unexpected resolution {:?}", other),
    }
}

#[test]
fn more_specific_pattern_wins() {
    let r = request();
    let mut specific = candidate(1);
    specific.prototype_pattern_specificity = 5;
    let mut general = candidate(2);
    general.prototype_pattern_specificity = 3;
    match resolve_policy_bridge(&r, &[general, specific], no_expectation()) {
        PolicyBridgeResolution::Selected(selected) => assert_eq!(selected.callable.id, 1),
        other => panic!("unexpected resolution {:?}", other),
    }
}

#[test]
fn exact_input_type_beats_any() {
    let r = request();
    let mut exact = candidate(1);
    exact.input_type = OrdinaryCallableTypeInput::Exact(TypeValueId(7));
    match resolve_policy_bridge(&r, &[candidate(2), exact], no_expectation()) {
        PolicyBridgeResolution::Selected(selected) => assert_eq!(selected.callable.id, 1),
        other => panic!("unexpected resolution {:?}", other),
    }
}

#[test]
fn type_changing_bridge_is_inadmissible() {
    let r = request();
    let mut changing = candidate(1);
    changing.output_type = OrdinaryCallableTypeOutput::Exact(TypeValueId(8));
    assert_eq!(resolve_policy_bridge(&r, &[changing], no_expectation()), PolicyBridgeResolution::NoCandidate);
    assert_eq!(qualify_policy_bridge(&r, &[candidate(1)], TransitionTypeExpectation { required_output_type: Some(TypeValueId(9)) }), BridgeQualification::Missing);
}

#[test]
fn narrower_output_policy_is_preferred() {
    let r = request();
    let a = candidate(1);
    let mut b = candidate(2);
    b.output_policy = pair(&[PolicyStage::Runtime], ValuePresence::Optional, &[PolicyStage::Compile]);
    assert_eq!(
        compare_policy_transition_candidates(r.source_view(), r.target_demand(), &a, &b),
        PolicyPartialOrdering::Greater
    );
    assert_eq!(
        compare_policy_transition_candidates(r.source_view(), r.target_demand(), &b, &a),
        PolicyPartialOrdering::Less
    );
}

#[test]
fn invocation_and_assembly() {
    let r = request();
    let selected = match resolve_policy_bridge(&r, &[candidate(1)], no_expectation()) {
        PolicyBridgeResolution::Selected(selected) => selected,
        other => panic!("unexpected resolution {:?}", other),
    };
    let produced = invoke_resolved_policy_bridge(&selected, &r, SemanticValueId(50), 77u64).unwrap();
    assert_eq!(produced.callable_id, 1);
    assert_eq!(produced.effect, PolicyBridgeEffect::BuiltinValueCopy);
    assert_eq!(produced.result.source_value, SemanticValueId(1));
    assert_eq!(
        produced.result.entry.value,
        Some(SemanticValueRef { id: SemanticValueId(50), type_value: TypeValueId(7) })
    );
    let demands = match elaborate_value_binding_p1(&[value_entry()], Some(&P1Projection::Pair(runtime_target())), prov("bind")).unwrap() {
        P1Elaboration::AtomicRuntimeMigration { demands, .. } => demands,
        other => panic!("unexpected elaboration {:?}", other),
    };
    let assembled = assemble_transition_results(&demands, &[produced.result.clone()]).unwrap();
    assert_eq!(assembled.len(), 1);
    assert_eq!(assembled[0].value, Some(SemanticValueRef { id: SemanticValueId(50), type_value: TypeValueId(7) }));
    let empty: Vec<PrototypeTransitionResultCarrier<u64>> = Vec::new();
    assert_eq!(
        assemble_transition_results(&demands, &empty).unwrap_err(),
        P1AssemblyFailure::ProducedValueCountMismatch { expected: 1, actual: 0 }
    );
    let mut foreign = produced.result.clone();
    foreign.source_value = SemanticValueId(2);
    assert_eq!(
        assemble_transition_results(&demands, &[foreign]).unwrap_err(),
        P1AssemblyFailure::ProducedValueDoesNotMatchDemand { demand_index: 0 }
    );
}

#[test]
fn failing_body_reports_the_selected_callable() {
    let r = request();
    let mut failing = candidate(4);
    failing.body = PolicyBridgeBody::FailAfterSelection("boom".to_string());
    let selected = match resolve_policy_bridge(&r, &[failing], no_expectation()) {
        PolicyBridgeResolution::Selected(selected) => selected,
        other => panic!("unexpected resolution {:?}", other),
    };
    let failure = invoke_resolved_policy_bridge(&selected, &r, SemanticValueId(50), 0u64).unwrap_err();
    assert_eq!(failure.selected_callable_id, 4);
    assert_eq!(failure.message, "boom".to_string());
    let mut user = candidate(5);
    user.body = PolicyBridgeBody::UserCallable(SymbolId(9));
    let selected = match resolve_policy_bridge(&r, &[user], no_expectation()) {
        PolicyBridgeResolution::Selected(selected) => selected,
        other => panic!("unexpected resolution {:?}", other),
    };
    let produced = invoke_resolved_policy_bridge(&selected, &r, SemanticValueId(51), 0u64).unwrap();
    assert_eq!(produced.effect, PolicyBridgeEffect::UserCallable(SymbolId(9)));
}

fn migration(source: PolicyPair, target: P1Projection) -> Result<PolicyMigrationRequest, F> {
    PolicyMigrationRequest::new(
        PolicyView { pair: source, mode: PolicyMode::Plain },
        ResultPolicyDemand { pair_query: target, mode: PolicyMode::Const },
        TypeValueId(7),
        SemanticValueId(1),
        prov("migration"),
    )
}

#[test]
fn migration_request_checks_both_endpoints() {
    assert_eq!(migration(compile_static(), P1Projection::Infer).unwrap_err(), F::TargetValueStageDomainEmpty);
    assert_eq!(
        migration(pair(&[PolicyStage::Compile], ValuePresence::Absent, &[PolicyStage::Compile]), P1Projection::Pair(runtime_target()))
            .unwrap_err(),
        F::SourceValueAbsent
    );
    assert_eq!(
        migration(pair(&[], ValuePresence::Present, &[PolicyStage::Compile]), P1Projection::Pair(runtime_target())).unwrap_err(),
        F::SourceValueStageDomainEmpty
    );
    assert_eq!(
        migration(compile_static(), P1Projection::Pair(pair(&[PolicyStage::Runtime], ValuePresence::Absent, &[PolicyStage::Compile])))
            .unwrap_err(),
        F::TargetValueAbsent
    );
    assert_eq!(
        migration(compile_static(), P1Projection::Pair(pair(&[], ValuePresence::Present, &[PolicyStage::Compile]))).unwrap_err(),
        F::TargetValueStageDomainEmpty
    );
    let meta_pattern = pair(&[PolicyStage::Runtime], ValuePresence::Present, &[PolicyStage::Meta]);
    assert_eq!(
        migration(compile_static(), P1Projection::Pair(meta_pattern)).unwrap_err(),
        F::TargetPatternPolicyUnavailable { source: compile_static().pattern, target: meta_pattern.pattern }
    );
    let ok = migration(compile_static(), P1Projection::Pair(runtime_target())).unwrap();
    assert_eq!(*ok.source_policy(), compile_static());
    assert_eq!(*ok.target_pair(), runtime_target());
    assert_eq!(ok.target_demand().mode, PolicyMode::Const);
    assert_eq!(ok.source_type(), TypeValueId(7));
    assert_eq!(ok.source_value(), SemanticValueId(1));
    assert_eq!(*ok.provenance(), prov("migration"));
}

#[test]
fn migration_request_from_an_atomic_runtime_request() {
    let transition = request();
    let migration = PolicyMigrationRequest::from_atomic_runtime(&transition);
    assert_eq!(*migration.source_view(), *transition.source_view());
    assert_eq!(*migration.target_pair(), runtime_target());
    assert_eq!(migration.source_type(), TypeValueId(7));
}

#[test]
fn binding_without_values_retries_with_relaxed_presence() {
    let entry: PolicyResultEntry<MigrationValueRef, u64> = PolicyResultEntry {
        value: None,
        pattern: 3,
        view: PolicyView {
            pair: pair(&[PolicyStage::Compile], ValuePresence::Optional, &[PolicyStage::Compile]),
            mode: PolicyMode::Plain,
        },
    };
    let query = P1Projection::ValueDominant {
        value: ValueComponentPolicy { stages: stages(&[PolicyStage::Compile]), presence: ValuePresence::Present },
    };
    let e = migration_value_binding_p1(&[entry], Some(&query), prov("bind")).unwrap();
    assert_eq!(e.origin, MigrationOrigin::Explicit);
    assert_eq!(e.requested, Some(query));
    assert_eq!(e.selected, vec![entry]);
    let meta = P1Projection::ValueDominant {
        value: ValueComponentPolicy { stages: stages(&[PolicyStage::Meta]), presence: ValuePresence::Present },
    };
    assert_eq!(
        migration_value_binding_p1(&[entry], Some(&meta), prov("bind")).unwrap_err(),
        MigrationFailure::ProjectionUnavailableWithoutValue { requested: meta }
    );
}

#[test]
fn binding_with_values_reports_an_unavailable_projection() {
    let entry: PolicyResultEntry<MigrationValueRef, u64> = PolicyResultEntry {
        value: Some(MigrationValueRef { id: SemanticValueId(1), type_value: TypeValueId(7) }),
        pattern: 3,
        view: PolicyView { pair: compile_static(), mode: PolicyMode::Plain },
    };
    let meta = P1Projection::Pair(pair(&[PolicyStage::Meta], ValuePresence::Present, &[PolicyStage::Meta]));
    assert_eq!(
        migration_value_binding_p1(&[entry], Some(&meta), prov("bind")).unwrap_err(),
        MigrationFailure::ProjectionUnavailable { requested: meta }
    );
    let inferred = migration_value_binding_p1(&[entry], None, prov("bind")).unwrap();
    assert_eq!(inferred.origin, MigrationOrigin::Inferred);
    assert_eq!(inferred.selected, vec![entry]);
}

#[test]
fn pure_type_binding_projects_or_reports_without_value() {
    let entry: PolicyResultEntry<std::convert::Infallible, u64> = PolicyResultEntry {
        value: None,
        pattern: 4,
        view: PolicyView { pair: compile_static(), mode: PolicyMode::Plain },
    };
    let inferred = elaborate_pure_type_binding_p1(&[entry], None).unwrap();
    assert_eq!(inferred.origin, MigrationOrigin::Inferred);
    let meta = P1Projection::Pair(pair(&[PolicyStage::Meta], ValuePresence::Present, &[PolicyStage::Meta]));
    assert_eq!(
        elaborate_pure_type_binding_p1(&[entry], Some(&meta)).unwrap_err(),
        MigrationFailure::ProjectionUnavailableWithoutValue { requested: meta }
    );
    let empty: Vec<PolicyResultEntry<std::convert::Infallible, u64>> = Vec::new();
    assert_eq!(elaborate_pure_type_binding_p1(&empty, None).unwrap_err(), MigrationFailure::EmptyResult);
}
